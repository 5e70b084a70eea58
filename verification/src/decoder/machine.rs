//! The decoder as a state machine over values: what every control code and
//! character does to the decoder's state, stated once, for the executable
//! decoder to be held to.
use vstd::prelude::*;

use super::Options;
use crate::b24::charset::{
    spec_resolve_double, spec_resolve_single, SizeContext, GETA,
};
use crate::b24::codesets::{spec_drcs_set_by_final, spec_g_set_by_final, Codeset, GraphicSet};
use crate::b24::macros::spec_default_macro;
use crate::model::{
    section_of, BodyView, CaptionKind, CaptionView, CharStyle, CharView, DrcsView, Duration,
    Enclosure, Encoding, Profile, RegionView, Rgba, Scale, WritingMode,
};
use crate::pes::{spec_next_unit, spec_parse, DataUnitKind, Group, GroupLayout, LanguageInfo, ParseError};

verus! {

/// Largest dimension, in dots, that any real ARIB caption plane uses. Every
/// CSI geometry parameter is pinned to it, so that a malformed stream cannot
/// drive the layout arithmetic into an overflow.
pub const MAX_PLANE_DOTS: i32 = 8192;

/// How far the pen can stray from the origin. Cell positions are at most 64
/// sections of at most 32768 dots from the writing area, and every move wraps
/// back into the area.
pub const PEN_LIMIT: i32 = 4194304;

/// How far a region's edges can stray from the origin: a pen position plus a
/// section.
pub const REGION_LIMIT: i32 = 8388608;

/// Everything a decoder holds, as values.
pub struct DecoderState {
    pub kind: CaptionKind,
    pub options: Options,
    pub encoding: Encoding,
    pub gx: Seq<Codeset>,
    pub gl: int,
    pub gr: int,
    pub drcs_maps: Seq<Map<u16, DrcsView>>,
    pub swf: u8,
    pub plane_width: int,
    pub plane_height: int,
    pub area_x: int,
    pub area_y: int,
    pub area_width: int,
    pub area_height: int,
    pub char_width: int,
    pub char_height: int,
    pub char_h_spacing: int,
    pub char_v_spacing: int,
    pub char_h_scale: Scale,
    pub char_v_scale: Scale,
    pub pos_inited: bool,
    pub pos_x: int,
    pub pos_y: int,
    pub palette: int,
    pub text_color: Rgba,
    pub back_color: Rgba,
    pub stroke_color: Rgba,
    pub style: CharStyle,
    pub enclosure: Enclosure,
    pub regions: Seq<RegionView>,
    pub text: Seq<char>,
    pub drcs_used: Map<u32, DrcsView>,
    pub clear_screen: bool,
    pub wait_ms: Option<u32>,
    pub builtin_sound: Option<u8>,
    pub language: [u8; 3],
    pub prev_management_group: Option<Group>,
}

/// Why a data group was refused, as values.
pub enum DecodeFailure {
    Pes(ParseError),
    Malformed(Seq<char>),
}

/// The management-data writing format (table 9-7) as the CSI SWF value
/// (table 7-17): 0..=4 as they are, 6..=13 one lower, the rest reserved.
pub open spec fn spec_management_format_to_swf(raw: u8) -> Option<u8> {
    if raw <= 4 {
        Some(raw)
    } else if 6 <= raw <= 13 {
        Some((raw - 1) as u8)
    } else {
        None
    }
}

/// A CSI geometry parameter pinned to a dimension a caption plane could have.
pub open spec fn spec_plane_dots(param: u32) -> int {
    if param > 8192 {
        8192
    } else {
        param as int
    }
}

/// The direction each defined SWF value selects.
pub open spec fn spec_writing_mode_for_swf(swf: u8) -> Option<WritingMode> {
    if swf == 0 || swf == 2 || swf == 4 || swf == 5 || swf == 7 || swf == 9 || swf == 11 {
        Some(WritingMode::HorizontalTb)
    } else if swf == 1 || swf == 3 || swf == 6 || swf == 8 || swf == 10 || swf == 12 {
        Some(WritingMode::VerticalRl)
    } else {
        None
    }
}

/// Whether a set's characters are (ku, ten) pairs of the kanji plane.
pub open spec fn is_kanji_plane(set: GraphicSet) -> bool {
    set == GraphicSet::Kanji || set == GraphicSet::JisX0213Kanji1 || set
        == GraphicSet::JisX0213Kanji2 || set == GraphicSet::AdditionalSymbols
}

/// A designation the decoder can hold in G0..G3: a well formed set, two bytes
/// wide when it is a kanji-plane set.
pub open spec fn designatable(c: Codeset) -> bool {
    c.wf() && (is_kanji_plane(c.set) ==> c.bytes == 2)
}

/// The colour of CLUT entry `i` (0..64), before alpha.
pub open spec fn clut_rgb(i: int) -> (u8, u8, u8) {
    if i == 0 {
        (0u8, 0u8, 0u8)
    } else if i == 1 {
        (255u8, 0u8, 0u8)
    } else if i == 2 {
        (0u8, 255u8, 0u8)
    } else if i == 3 {
        (255u8, 255u8, 0u8)
    } else if i == 4 {
        (0u8, 0u8, 255u8)
    } else if i == 5 {
        (255u8, 0u8, 255u8)
    } else if i == 6 {
        (0u8, 255u8, 255u8)
    } else if i == 7 {
        (255u8, 255u8, 255u8)
    } else if i == 8 {
        (0u8, 0u8, 0u8)
    } else if i == 9 {
        (170u8, 0u8, 0u8)
    } else if i == 10 {
        (0u8, 170u8, 0u8)
    } else if i == 11 {
        (170u8, 170u8, 0u8)
    } else if i == 12 {
        (0u8, 0u8, 170u8)
    } else if i == 13 {
        (170u8, 0u8, 170u8)
    } else if i == 14 {
        (0u8, 170u8, 170u8)
    } else if i == 15 {
        (170u8, 170u8, 170u8)
    } else if i == 16 {
        (0u8, 0u8, 85u8)
    } else if i == 17 {
        (0u8, 85u8, 0u8)
    } else if i == 18 {
        (0u8, 85u8, 85u8)
    } else if i == 19 {
        (0u8, 85u8, 170u8)
    } else if i == 20 {
        (0u8, 85u8, 255u8)
    } else if i == 21 {
        (0u8, 170u8, 85u8)
    } else if i == 22 {
        (0u8, 170u8, 255u8)
    } else if i == 23 {
        (0u8, 255u8, 85u8)
    } else if i == 24 {
        (0u8, 255u8, 170u8)
    } else if i == 25 {
        (85u8, 0u8, 0u8)
    } else if i == 26 {
        (85u8, 0u8, 85u8)
    } else if i == 27 {
        (85u8, 0u8, 170u8)
    } else if i == 28 {
        (85u8, 0u8, 255u8)
    } else if i == 29 {
        (85u8, 85u8, 0u8)
    } else if i == 30 {
        (85u8, 85u8, 85u8)
    } else if i == 31 {
        (85u8, 85u8, 170u8)
    } else if i == 32 {
        (85u8, 85u8, 255u8)
    } else if i == 33 {
        (85u8, 170u8, 0u8)
    } else if i == 34 {
        (85u8, 170u8, 85u8)
    } else if i == 35 {
        (85u8, 170u8, 170u8)
    } else if i == 36 {
        (85u8, 170u8, 255u8)
    } else if i == 37 {
        (85u8, 255u8, 0u8)
    } else if i == 38 {
        (85u8, 255u8, 85u8)
    } else if i == 39 {
        (85u8, 255u8, 170u8)
    } else if i == 40 {
        (85u8, 255u8, 255u8)
    } else if i == 41 {
        (170u8, 0u8, 85u8)
    } else if i == 42 {
        (170u8, 0u8, 255u8)
    } else if i == 43 {
        (170u8, 85u8, 0u8)
    } else if i == 44 {
        (170u8, 85u8, 85u8)
    } else if i == 45 {
        (170u8, 85u8, 170u8)
    } else if i == 46 {
        (170u8, 85u8, 255u8)
    } else if i == 47 {
        (170u8, 170u8, 85u8)
    } else if i == 48 {
        (170u8, 170u8, 255u8)
    } else if i == 49 {
        (170u8, 255u8, 0u8)
    } else if i == 50 {
        (170u8, 255u8, 85u8)
    } else if i == 51 {
        (170u8, 255u8, 170u8)
    } else if i == 52 {
        (170u8, 255u8, 255u8)
    } else if i == 53 {
        (255u8, 0u8, 85u8)
    } else if i == 54 {
        (255u8, 0u8, 170u8)
    } else if i == 55 {
        (255u8, 85u8, 0u8)
    } else if i == 56 {
        (255u8, 85u8, 85u8)
    } else if i == 57 {
        (255u8, 85u8, 170u8)
    } else if i == 58 {
        (255u8, 85u8, 255u8)
    } else if i == 59 {
        (255u8, 170u8, 0u8)
    } else if i == 60 {
        (255u8, 170u8, 85u8)
    } else if i == 61 {
        (255u8, 170u8, 170u8)
    } else if i == 62 {
        (255u8, 170u8, 255u8)
    } else if i == 63 {
        (255u8, 255u8, 85u8)
    } else {
        (255u8, 255u8, 170u8)
    }
}
/// CLUT[palette][index] of ARIB STD-B24: 0..7 full intensity, 8 transparent,
/// 9..15 half intensity, 16..64 the remaining 85-step colours, and 65..127
/// the colours 1..63 again at half alpha.
pub open spec fn spec_clut(palette: int, index: int) -> Rgba {
    let i = palette * 16 + index;
    if i == 8 {
        Rgba { r: 0, g: 0, b: 0, a: 0 }
    } else if i < 65 {
        Rgba { r: clut_rgb(i).0, g: clut_rgb(i).1, b: clut_rgb(i).2, a: 255 }
    } else {
        Rgba { r: clut_rgb(i - 64).0, g: clut_rgb(i - 64).1, b: clut_rgb(i - 64).2, a: 128 }
    }
}

pub open spec fn transparent() -> Rgba {
    Rgba { r: 0, g: 0, b: 0, a: 0 }
}

impl DecoderState {
    /// The invariant every decoder keeps.
    pub open spec fn wf(self) -> bool {
        &&& self.gx.len() == 4
        &&& forall|i: int| 0 <= i < 4 ==> designatable(#[trigger] self.gx[i])
        &&& 0 <= self.gl < 4
        &&& 0 <= self.gr < 4
        &&& self.drcs_maps.len() == 16
        &&& 0 <= self.palette < 8
        &&& 0 <= self.area_x <= 8192
        &&& 0 <= self.area_y <= 8192
        &&& 0 <= self.area_width <= 8192
        &&& 0 <= self.area_height <= 8192
        &&& 0 <= self.char_width <= 8192
        &&& 0 <= self.char_height <= 8192
        &&& 0 <= self.char_h_spacing <= 8192
        &&& 0 <= self.char_v_spacing <= 8192
        &&& 0 <= self.plane_width <= 8192
        &&& 0 <= self.plane_height <= 8192
        &&& -PEN_LIMIT <= self.pos_x <= PEN_LIMIT
        &&& -PEN_LIMIT <= self.pos_y <= PEN_LIMIT
        &&& forall|i: int| 0 <= i < self.regions.len() ==> region_bounded(#[trigger] self.regions[i])
        &&& regions_laid_out(self.regions)
    }

    pub open spec fn writing_mode(self) -> WritingMode {
        match spec_writing_mode_for_swf(self.swf) {
            Some(m) => m,
            None => WritingMode::HorizontalTb,
        }
    }

    /// The width of a cell with its spacing, scaled: what advances the pen.
    pub open spec fn sw(self) -> int {
        section_of(self.char_width, self.char_h_spacing, self.char_h_scale)
    }

    /// The height of a cell with its spacing, scaled.
    pub open spec fn sh(self) -> int {
        section_of(self.char_height, self.char_v_spacing, self.char_v_scale)
    }

    /// Half width against full height (or full against double).
    pub open spec fn is_msz(self) -> bool {
        self.char_h_scale.halves() * 2 == self.char_v_scale.halves()
    }

    /// Ruby (furigana): half-size text, or on profile A text in an 18×18 cell.
    pub open spec fn is_ruby(self) -> bool {
        self.encoding == Encoding::JisB24 && ((self.char_h_scale == Scale::Half
            && self.char_v_scale == Scale::Half) || (self.options.profile == Profile::A
            && self.char_width == 18 && self.char_height == 18))
    }

    pub open spec fn size_context(self) -> SizeContext {
        SizeContext {
            is_msz: self.is_msz(),
            replace_msz_ascii: self.options.replace_msz_fullwidth_ascii,
            replace_msz_japanese: self.options.replace_msz_fullwidth_japanese,
        }
    }
}

/// A region whose edges stay within [`REGION_LIMIT`] of the origin, and
/// whose last cell has in-range metrics.
pub open spec fn region_bounded(r: RegionView) -> bool {
    &&& -REGION_LIMIT <= r.x <= REGION_LIMIT
    &&& -REGION_LIMIT <= r.y <= REGION_LIMIT
    &&& -REGION_LIMIT <= r.x + r.width <= REGION_LIMIT
    &&& -REGION_LIMIT <= r.y + r.height <= REGION_LIMIT
    &&& r.chars.len() > 0 ==> char_bounded(r.chars.last())
}

/// A cell as the decoder makes one: metrics a plane can have, placed within
/// a section of the pen's range.
pub open spec fn char_bounded(c: CharView) -> bool {
    &&& 0 <= c.char_width <= 8192
    &&& 0 <= c.char_height <= 8192
    &&& 0 <= c.char_horizontal_spacing <= 8192
    &&& 0 <= c.char_vertical_spacing <= 8192
    &&& -PEN_LIMIT - 32768 <= c.x <= PEN_LIMIT
    &&& -PEN_LIMIT - 32768 <= c.y <= PEN_LIMIT
}

/// Every region of a caption within [`REGION_LIMIT`] of the origin: however
/// the stream drives the layout, no coordinate a renderer reads can be near
/// the edge of an `i32`.
pub open spec fn regions_stay_bounded(c: CaptionView) -> bool {
    forall|i: int| 0 <= i < c.regions.len() ==> region_bounded(#[trigger] c.regions[i])
}

/// `next` continues the run `prev` ends along a character path: it starts
/// where `prev` ends, on the same line, with the same size across the path.
pub open spec fn follows(mode: WritingMode, prev: CharView, next: CharView) -> bool {
    match mode {
        WritingMode::HorizontalTb => {
            &&& next.x == prev.x + prev.section_width()
            &&& next.y == prev.y
            &&& next.section_height() == prev.section_height()
        },
        WritingMode::VerticalRl => {
            &&& next.x == prev.x
            &&& next.y == prev.y + prev.section_height()
            &&& next.section_width() == prev.section_width()
        },
    }
}

/// The cell lies within the region's box.
pub open spec fn cell_inside(r: RegionView, c: CharView) -> bool {
    &&& r.x <= c.x
    &&& c.x + c.section_width() <= r.x + r.width
    &&& r.y <= c.y
    &&& c.y + c.section_height() <= r.y + r.height
}

/// A region as the decoder derives one: its box holds every one of its
/// cells, and each cell after the first follows the one before it along the
/// region's writing direction.
pub open spec fn region_laid_out(r: RegionView) -> bool {
    &&& forall|j: int| 0 <= j < r.chars.len() ==> cell_inside(r, #[trigger] r.chars[j])
    &&& forall|j: int|
        #![trigger r.chars[j]]
        1 <= j < r.chars.len() ==> follows(r.writing_mode, r.chars[j - 1], r.chars[j])
}

/// Every region of the sequence is laid out.
#[verifier::opaque]
pub open spec fn regions_laid_out(rs: Seq<RegionView>) -> bool {
    forall|i: int| 0 <= i < rs.len() ==> region_laid_out(#[trigger] rs[i])
}

/// No regions are trivially laid out.
pub proof fn lemma_no_regions_laid_out(rs: Seq<RegionView>)
    requires
        rs.len() == 0,
    ensures
        regions_laid_out(rs),
{
    reveal(regions_laid_out);
}

// ── resets ──────────────────────────────────────────────────────────

/// The graphic sets a statement starts from.
pub open spec fn default_sets(encoding: Encoding, profile: Profile) -> Seq<Codeset> {
    if encoding == Encoding::Latin {
        seq![
            Codeset { set: GraphicSet::Alphanumeric, bytes: 1 },
            Codeset { set: GraphicSet::Alphanumeric, bytes: 1 },
            Codeset { set: GraphicSet::LatinExtension, bytes: 1 },
            Codeset { set: GraphicSet::LatinSpecial, bytes: 1 },
        ]
    } else if profile == Profile::C {
        seq![
            Codeset { set: GraphicSet::Drcs(1), bytes: 1 },
            Codeset { set: GraphicSet::Alphanumeric, bytes: 1 },
            Codeset { set: GraphicSet::Kanji, bytes: 2 },
            Codeset { set: GraphicSet::Macro, bytes: 1 },
        ]
    } else {
        seq![
            Codeset { set: GraphicSet::Kanji, bytes: 2 },
            Codeset { set: GraphicSet::Alphanumeric, bytes: 1 },
            Codeset { set: GraphicSet::Hiragana, bytes: 1 },
            Codeset { set: GraphicSet::Macro, bytes: 1 },
        ]
    }
}

pub open spec fn reset_graphic_sets(s: DecoderState) -> DecoderState {
    DecoderState { gx: default_sets(s.encoding, s.options.profile), gl: 0, gr: 2, ..s }
}

/// Plane width and height and the cell spacing a profile A writing format
/// uses.
pub open spec fn format_geometry(swf: u8) -> (int, int, int, int) {
    if swf == 5 || swf == 6 {
        (1920, 1080, 4, 24)
    } else if swf == 8 {
        (960, 540, 12, 24)
    } else if swf == 9 {
        (720, 480, 4, 16)
    } else if swf == 10 {
        (720, 480, 8, 24)
    } else if swf == 11 || swf == 12 {
        (1280, 720, 4, 24)
    } else {
        (960, 540, 4, 24)
    }
}

pub open spec fn reset_writing_format(s: DecoderState) -> DecoderState {
    let s1 = if s.options.profile == Profile::A {
        let (w, h, hs, vs) = format_geometry(s.swf);
        DecoderState {
            plane_width: w,
            plane_height: h,
            area_width: w,
            area_height: h,
            char_width: 36,
            char_height: 36,
            char_h_spacing: hs,
            char_v_spacing: vs,
            ..s
        }
    } else {
        DecoderState {
            plane_width: 320,
            plane_height: 180,
            area_width: 320,
            area_height: 180,
            char_width: 18,
            char_height: 18,
            char_h_spacing: 2,
            char_v_spacing: 6,
            ..s
        }
    };
    if s.encoding == Encoding::Latin {
        DecoderState { char_h_spacing: 2, char_v_spacing: 16, ..s1 }
    } else {
        s1
    }
}

pub open spec fn reset_state(s: DecoderState) -> DecoderState {
    let s1 = reset_writing_format(reset_graphic_sets(s));
    DecoderState {
        area_x: 0,
        area_y: 0,
        pos_inited: false,
        pos_x: 0,
        pos_y: 0,
        // Latin captions are written in MSZ by default.
        char_h_scale: if s.encoding == Encoding::Latin {
            Scale::Half
        } else {
            Scale::One
        },
        char_v_scale: Scale::One,
        style: CharStyle { bold: false, italic: false, underline: false, stroke: false },
        stroke_color: transparent(),
        enclosure: Enclosure { top: false, right: false, bottom: false, left: false },
        builtin_sound: None,
        palette: 0,
        text_color: spec_clut(0, 7),
        back_color: spec_clut(0, 8),
        ..s1
    }
}

// ── the pen ─────────────────────────────────────────────────────────

/// What moving the pen depends on: the writing area, the section a cell
/// takes, and the direction of writing.
pub struct Layout {
    pub area_x: int,
    pub area_y: int,
    pub area_width: int,
    pub area_height: int,
    pub sw: int,
    pub sh: int,
    pub mode: WritingMode,
}

/// The pen: whether it has been placed, and where. Its y is the bottom of the
/// current row.
pub struct Pen {
    pub inited: bool,
    pub x: int,
    pub y: int,
}

impl Layout {
    /// The ranges the invariant keeps the layout in.
    pub open spec fn bounded(self) -> bool {
        &&& 0 <= self.area_x <= 8192
        &&& 0 <= self.area_y <= 8192
        &&& 0 <= self.area_width <= 8192
        &&& 0 <= self.area_height <= 8192
        &&& 0 <= self.sw <= 32768
        &&& 0 <= self.sh <= 32768
    }
}

impl Pen {
    pub open spec fn bounded(self) -> bool {
        -PEN_LIMIT <= self.x <= PEN_LIMIT && -PEN_LIMIT <= self.y <= PEN_LIMIT
    }
}

impl DecoderState {
    pub open spec fn layout(self) -> Layout {
        Layout {
            area_x: self.area_x,
            area_y: self.area_y,
            area_width: self.area_width,
            area_height: self.area_height,
            sw: self.sw(),
            sh: self.sh(),
            mode: self.writing_mode(),
        }
    }

    pub open spec fn pen(self) -> Pen {
        Pen { inited: self.pos_inited, x: self.pos_x, y: self.pos_y }
    }

    pub open spec fn with_pen(self, p: Pen) -> DecoderState {
        DecoderState { pos_inited: p.inited, pos_x: p.x, pos_y: p.y, ..self }
    }
}

/// APS: the pen at cell (`line`, `character`) of the writing area. The line
/// counts in the line direction, the character along the character path.
pub open spec fn aps_pen(l: Layout, line: int, character: int) -> Pen {
    match l.mode {
        WritingMode::HorizontalTb => Pen {
            inited: true,
            x: l.area_x + character * l.sw,
            y: l.area_y + (line + 1) * l.sh,
        },
        WritingMode::VerticalRl => Pen {
            inited: true,
            x: l.area_x + l.area_width - (line + 1) * l.sw,
            y: l.area_y + (character + 1) * l.sh,
        },
    }
}

/// A pen never placed, or off the plane, starts at the first cell.
pub open spec fn ensure_pen(l: Layout, p: Pen) -> Pen {
    if !p.inited || p.x < 0 || p.y < 0 {
        aps_pen(l, 0, 0)
    } else {
        p
    }
}

pub open spec fn magnitude(steps: int) -> nat {
    if steps < 0 {
        (-steps) as nat
    } else {
        steps as nat
    }
}

/// One step in the line direction, wrapping within the writing area.
pub open spec fn line_step(l: Layout, p: Pen, back: bool) -> Pen {
    match l.mode {
        WritingMode::HorizontalTb => if back {
            let y = p.y - l.sh;
            Pen {
                y: if y < l.area_y + l.sh {
                    l.area_y + l.area_height
                } else {
                    y
                },
                ..p
            }
        } else {
            let y = p.y + l.sh;
            Pen {
                y: if y > l.area_y + l.area_height {
                    l.area_y + l.sh
                } else {
                    y
                },
                ..p
            }
        },
        WritingMode::VerticalRl => if back {
            let x = p.x + l.sw;
            Pen {
                x: if x >= l.area_x + l.area_width {
                    l.area_x
                } else {
                    x
                },
                ..p
            }
        } else {
            let x = p.x - l.sw;
            Pen {
                x: if x < l.area_x {
                    l.area_x + l.area_width - l.sw
                } else {
                    x
                },
                ..p
            }
        },
    }
}

/// The pen `steps` lines on.
pub open spec fn line_steps(l: Layout, p: Pen, steps: int) -> Pen
    decreases magnitude(steps),
{
    if steps == 0 {
        p
    } else if steps < 0 {
        line_steps(l, line_step(l, p, true), steps + 1)
    } else {
        line_steps(l, line_step(l, p, false), steps - 1)
    }
}

/// APD/APU: move in the line direction.
pub open spec fn move_line_pen(l: Layout, p: Pen, steps: int) -> Pen {
    line_steps(l, ensure_pen(l, p), steps)
}

/// One step along the character path; running off either end of the area
/// wraps to the other end of the next (or previous) line.
pub open spec fn char_step(l: Layout, p: Pen, back: bool) -> Pen {
    match l.mode {
        WritingMode::HorizontalTb => if back {
            let x = p.x - l.sw;
            if x < l.area_x {
                move_line_pen(l, Pen { x: l.area_x + l.area_width - l.sw, ..p }, -1)
            } else {
                Pen { x, ..p }
            }
        } else {
            let x = p.x + l.sw;
            if x >= l.area_x + l.area_width {
                move_line_pen(l, Pen { x: l.area_x, ..p }, 1)
            } else {
                Pen { x, ..p }
            }
        },
        WritingMode::VerticalRl => if back {
            let y = p.y - l.sh;
            if y < l.area_y + l.sh {
                move_line_pen(l, Pen { y: l.area_y + l.area_height, ..p }, -1)
            } else {
                Pen { y, ..p }
            }
        } else {
            let y = p.y + l.sh;
            if y > l.area_y + l.area_height {
                move_line_pen(l, Pen { y: l.area_y + l.sh, ..p }, 1)
            } else {
                Pen { y, ..p }
            }
        },
    }
}

/// The pen `steps` cells on along the character path.
pub open spec fn char_steps(l: Layout, p: Pen, steps: int) -> Pen
    decreases magnitude(steps),
{
    if steps == 0 {
        p
    } else if steps < 0 {
        char_steps(l, char_step(l, p, true), steps + 1)
    } else {
        char_steps(l, char_step(l, p, false), steps - 1)
    }
}

/// APF/APB and every character drawn: move along the character path.
pub open spec fn move_char_pen(l: Layout, p: Pen, steps: int) -> Pen {
    char_steps(l, ensure_pen(l, p), steps)
}

/// APR: the start of the next line.
pub open spec fn newline_pen(l: Layout, p: Pen) -> Pen {
    let p1 = move_line_pen(l, ensure_pen(l, p), 1);
    match l.mode {
        WritingMode::HorizontalTb => Pen { x: l.area_x, ..p1 },
        WritingMode::VerticalRl => Pen { y: l.area_y + l.sh, ..p1 },
    }
}

pub open spec fn set_active_position(s: DecoderState, line: int, character: int) -> DecoderState {
    s.with_pen(aps_pen(s.layout(), line, character))
}

pub open spec fn ensure_position(s: DecoderState) -> DecoderState {
    s.with_pen(ensure_pen(s.layout(), s.pen()))
}

pub open spec fn move_line_direction(s: DecoderState, steps: int) -> DecoderState {
    s.with_pen(move_line_pen(s.layout(), s.pen(), steps))
}

pub open spec fn move_character_path(s: DecoderState, steps: int) -> DecoderState {
    s.with_pen(move_char_pen(s.layout(), s.pen(), steps))
}

pub open spec fn move_to_newline(s: DecoderState) -> DecoderState {
    s.with_pen(newline_pen(s.layout(), s.pen()))
}

// ── characters and regions ──────────────────────────────────────────

/// A cell at the pen, in the current size and colours. The pen's y is the
/// bottom of the row, so the cell's own y sits one section height above it.
pub open spec fn make_char(s: DecoderState, body: BodyView) -> (DecoderState, CharView) {
    let s1 = ensure_position(s);
    (
        s1,
        CharView {
            body,
            x: s1.pos_x,
            y: s1.pos_y - s1.sh(),
            char_width: s1.char_width,
            char_height: s1.char_height,
            char_horizontal_spacing: s1.char_h_spacing,
            char_vertical_spacing: s1.char_v_spacing,
            char_horizontal_scale: s1.char_h_scale,
            char_vertical_scale: s1.char_v_scale,
            text_color: s1.text_color,
            back_color: s1.back_color,
            stroke_color: if s1.style.stroke {
                s1.stroke_color
            } else {
                transparent()
            },
            style: s1.style,
            enclosure: s1.enclosure,
        },
    )
}

/// A region is a contiguous run along one character path. A position jump,
/// cross-path size change, or writing-direction change starts another one.
pub open spec fn needs_new_region(s: DecoderState, next: CharView) -> bool {
    if s.regions.len() == 0 {
        true
    } else {
        let region = s.regions.last();
        if region.writing_mode != s.writing_mode() {
            true
        } else if region.chars.len() == 0 {
            false
        } else {
            let prev = region.chars.last();
            match s.writing_mode() {
                WritingMode::HorizontalTb => next.x != prev.x + prev.section_width() || next.y
                    != prev.y || next.section_height() != prev.section_height(),
                WritingMode::VerticalRl => next.x != prev.x || next.y != prev.y
                    + prev.section_height() || next.section_width() != prev.section_width(),
            }
        }
    }
}

pub open spec fn min_int(a: int, b: int) -> int {
    if a <= b {
        a
    } else {
        b
    }
}

pub open spec fn max_int(a: int, b: int) -> int {
    if a >= b {
        a
    } else {
        b
    }
}

/// A cell into the regions: a new region, or the last one grown to hold it.
pub open spec fn push_char(s: DecoderState, ch: CharView) -> DecoderState {
    if needs_new_region(s, ch) {
        DecoderState {
            regions: s.regions.push(
                RegionView {
                    chars: seq![ch],
                    x: ch.x,
                    y: ch.y,
                    width: ch.section_width(),
                    height: ch.section_height(),
                    writing_mode: s.writing_mode(),
                    is_ruby: s.is_ruby(),
                },
            ),
            ..s
        }
    } else {
        let r = s.regions.last();
        let right = max_int(r.x + r.width, ch.x + ch.section_width());
        let bottom = max_int(r.y + r.height, ch.y + ch.section_height());
        let x = min_int(r.x, ch.x);
        let y = min_int(r.y, ch.y);
        DecoderState {
            regions: s.regions.update(
                s.regions.len() - 1,
                RegionView {
                    chars: r.chars.push(ch),
                    x,
                    y,
                    width: right - x,
                    height: bottom - y,
                    ..r
                },
            ),
            ..s
        }
    }
}

/// Placing a cell keeps every region laid out: a new region holds just the
/// cell, and a grown one widens its box to hold the cell that follows its
/// last one.
pub proof fn lemma_push_char_laid_out(s: DecoderState, ch: CharView)
    requires
        regions_laid_out(s.regions),
    ensures
        regions_laid_out(push_char(s, ch).regions),
{
    reveal(regions_laid_out);
    let after = push_char(s, ch).regions;
    if needs_new_region(s, ch) {
        let r = after.last();
        assert(r.chars =~= seq![ch]);
        assert(region_laid_out(r));
        assert forall|i: int| 0 <= i < after.len() implies region_laid_out(#[trigger] after[i]) by {
            if i < s.regions.len() {
                assert(after[i] == s.regions[i]);
            }
        }
    } else {
        let n = s.regions.len() - 1;
        let r = s.regions[n];
        assert(region_laid_out(r));
        let g = after[n];
        assert(g.chars =~= r.chars.push(ch));
        assert(g.writing_mode == r.writing_mode);
        assert forall|j: int| 0 <= j < g.chars.len() implies cell_inside(g, #[trigger] g.chars[j]) by {
            if j < r.chars.len() {
                assert(g.chars[j] == r.chars[j]);
                assert(cell_inside(r, r.chars[j]));
            }
        }
        assert forall|j: int|
            #![trigger g.chars[j]]
            1 <= j < g.chars.len() implies follows(g.writing_mode, g.chars[j - 1], g.chars[j]) by {
            if j < r.chars.len() {
                assert(g.chars[j] == r.chars[j]);
                assert(g.chars[j - 1] == r.chars[j - 1]);
                assert(follows(r.writing_mode, r.chars[j - 1], r.chars[j]));
            } else {
                assert(g.chars[j - 1] == r.chars.last());
                assert(g.chars[j] == ch);
            }
        }
        assert(region_laid_out(g));
        assert forall|i: int| 0 <= i < after.len() implies region_laid_out(#[trigger] after[i]) by {
            if i < n {
                assert(after[i] == s.regions[i]);
            }
        }
    }
}

/// Text into the caption: into the plain text unless it is ruby, and as a
/// cell at the pen.
pub open spec fn push_text(s: DecoderState, text: Seq<char>, pua: Option<char>) -> DecoderState {
    let s1 = if !s.is_ruby() {
        DecoderState { text: s.text + text, ..s }
    } else {
        s
    };
    let (s2, ch) = make_char(s1, BodyView::Text { text, pua });
    push_char(s2, ch)
}

/// A transmitted glyph drawn: its text (unless ruby), its record among the
/// glyphs the caption uses, and the body of its cell.
pub open spec fn note_drcs(s: DecoderState, drcs: DrcsView, code: u32) -> (DecoderState, BodyView) {
    let shown = match drcs.alternative {
        Some(c) => c,
        None => GETA,
    };
    let s1 = if !s.is_ruby() {
        DecoderState { text: s.text.push(shown), ..s }
    } else {
        s
    };
    let body = match drcs.alternative {
        Some(c) => BodyView::DrcsReplaced { text: seq![c], code },
        None => BodyView::Drcs { code },
    };
    let s2 = if s1.drcs_used.contains_key(code) {
        s1
    } else {
        DecoderState { drcs_used: s1.drcs_used.insert(code, drcs), ..s1 }
    };
    (s2, body)
}

/// A DRCS character: the glyph's cell, or GETA when the glyph was never
/// transmitted.
pub open spec fn push_drcs(s: DecoderState, map_index: int, key: u16) -> DecoderState {
    if !s.drcs_maps[map_index].contains_key(key) {
        push_text(s, seq![GETA], None)
    } else {
        let (s2, body) = note_drcs(
            s,
            s.drcs_maps[map_index][key],
            (map_index * 0x10000 + key) as u32,
        );
        let (s3, ch) = make_char(s2, body);
        push_char(s3, ch)
    }
}

// ── control codes ───────────────────────────────────────────────────

/// A step's consumption with one more byte in front of it.
pub open spec fn plus_one(n: Option<int>) -> Option<int> {
    match n {
        Some(k) => Some(k + 1),
        None => None,
    }
}

/// A designation into G`index`, when the final byte names a set.
pub open spec fn designate(s: DecoderState, index: int, set: Option<Codeset>) -> DecoderState {
    match set {
        Some(c) => DecoderState { gx: s.gx.update(index, c), ..s },
        None => s,
    }
}

/// ESC: locking shifts and designations.
pub open spec fn st_esc(s: DecoderState, data: Seq<u8>) -> (DecoderState, Option<int>) {
    let b = data[0];
    if b == 0x6e {
        (DecoderState { gl: 2, ..s }, Some(1))
    } else if b == 0x6f {
        (DecoderState { gl: 3, ..s }, Some(1))
    } else if b == 0x7e {
        (DecoderState { gr: 1, ..s }, Some(1))
    } else if b == 0x7d {
        (DecoderState { gr: 2, ..s }, Some(1))
    } else if b == 0x7c {
        (DecoderState { gr: 3, ..s }, Some(1))
    } else if b == 0x24 {
        // Two-byte set designation: ESC 0x24 [0x28..0x2B] F
        if data.len() < 2 {
            (s, None)
        } else if 0x28 <= data[1] <= 0x2b {
            let index = data[1] - 0x28;
            if data.len() < 3 {
                (s, None)
            } else if data[2] == 0x20 {
                if data.len() < 4 {
                    (s, None)
                } else {
                    let set = match spec_drcs_set_by_final(data[3]) {
                        Some(c) => Some(Codeset { bytes: 2, ..c }),
                        None => None,
                    };
                    (designate(s, index, set), Some(4))
                }
            } else {
                (designate(s, index, spec_g_set_by_final(data[2])), Some(3))
            }
        } else {
            // ESC 0x24 F designates into G0.
            (designate(s, 0, spec_g_set_by_final(data[1])), Some(2))
        }
    } else if 0x28 <= b <= 0x2b {
        // One-byte set designation: ESC [0x28..0x2B] F
        let index = b - 0x28;
        if data.len() < 2 {
            (s, None)
        } else if data[1] == 0x20 {
            if data.len() < 3 {
                (s, None)
            } else {
                (designate(s, index, spec_drcs_set_by_final(data[2])), Some(3))
            }
        } else {
            (designate(s, index, spec_g_set_by_final(data[1])), Some(2))
        }
    } else {
        (s, Some(1))
    }
}

/// The TIME wait added to what the caption already waits, saturating.
pub open spec fn add_wait(wait: Option<u32>, add: int) -> u32 {
    let base = match wait {
        Some(ms) => ms as int,
        None => 0,
    };
    if base + add > u32::MAX {
        u32::MAX
    } else {
        (base + add) as u32
    }
}

/// COL: a foreground or background colour from the palette, or a palette.
pub open spec fn c1_col(s: DecoderState, data: Seq<u8>) -> (DecoderState, Option<int>) {
    if data.len() < 2 {
        (s, None)
    } else if data[1] == 0x20 {
        // Palette select. Indexes above 7 are unused in practice.
        if data.len() < 3 {
            (s, None)
        } else {
            (DecoderState { palette: (data[2] & 0x07u8) as int, ..s }, Some(3))
        }
    } else if 0x48 <= data[1] <= 0x7f {
        let index = (data[1] & 0x0fu8) as int;
        let high = data[1] & 0xf0u8;
        if high == 0x40 {
            (DecoderState { text_color: spec_clut(s.palette, index), ..s }, Some(2))
        } else if high == 0x50 {
            (DecoderState { back_color: spec_clut(s.palette, index), ..s }, Some(2))
        } else {
            (s, Some(2))
        }
    } else {
        (s, None)
    }
}

/// SZX: double height, width, or both; other values are unused per ARIB
/// TR-B14.
pub open spec fn c1_szx(s: DecoderState, data: Seq<u8>) -> (DecoderState, Option<int>) {
    if data.len() < 2 {
        (s, None)
    } else if data[1] == 0x41 {
        (DecoderState { char_v_scale: Scale::Double, ..s }, Some(2))
    } else if data[1] == 0x44 {
        (DecoderState { char_h_scale: Scale::Double, ..s }, Some(2))
    } else if data[1] == 0x45 {
        (DecoderState { char_h_scale: Scale::Double, char_v_scale: Scale::Double, ..s }, Some(2))
    } else {
        (s, Some(2))
    }
}

/// A C1 code with parameters that change nothing here: FLC, POL, WMM and
/// RPC take one, CDC one or two.
pub open spec fn c1_skip(s: DecoderState, data: Seq<u8>) -> (DecoderState, Option<int>) {
    if data.len() < 2 {
        (s, None)
    } else if data[0] == 0x92 && data[1] == 0x20 {
        if data.len() < 3 {
            (s, None)
        } else {
            (s, Some(3))
        }
    } else {
        (s, Some(2))
    }
}

/// TIME: a wait in units of 100 ms, accumulating across commands.
pub open spec fn c1_time(s: DecoderState, data: Seq<u8>) -> (DecoderState, Option<int>) {
    if data.len() < 3 {
        (s, None)
    } else if data[1] == 0x20 {
        (
            DecoderState { wait_ms: Some(add_wait(s.wait_ms, (data[2] & 0x3fu8) * 100)), ..s },
            Some(3),
        )
    } else {
        (s, Some(3))
    }
}

/// HLC: which sides of the cell carry a rule.
pub open spec fn c1_hlc(s: DecoderState, data: Seq<u8>) -> (DecoderState, Option<int>) {
    if data.len() < 2 {
        (s, None)
    } else {
        let bits = data[1] & 0x0fu8;
        (
            DecoderState {
                enclosure: Enclosure {
                    bottom: bits & 1u8 != 0,
                    right: bits & 2u8 != 0,
                    top: bits & 4u8 != 0,
                    left: bits & 8u8 != 0,
                },
                ..s
            },
            Some(2),
        )
    }
}

/// C1: colours, sizes, styling, timing, and the CSI that introduces the rest.
pub open spec fn st_c1(s: DecoderState, data: Seq<u8>) -> (DecoderState, Option<int>) {
    let b = data[0];
    if b == 0x7f {
        (s, Some(1))
    } else if 0x80 <= b <= 0x87 {
        (DecoderState { text_color: spec_clut(s.palette, b - 0x80), ..s }, Some(1))
    } else if b == 0x90 {
        c1_col(s, data)
    } else if b == 0x88 {
        (DecoderState { char_h_scale: Scale::Half, char_v_scale: Scale::Half, ..s }, Some(1))
    } else if b == 0x89 {
        (DecoderState { char_h_scale: Scale::Half, char_v_scale: Scale::One, ..s }, Some(1))
    } else if b == 0x8a {
        (DecoderState { char_h_scale: Scale::One, char_v_scale: Scale::One, ..s }, Some(1))
    } else if b == 0x8b {
        c1_szx(s, data)
    } else if b == 0x91 || b == 0x93 || b == 0x94 || b == 0x98 || b == 0x92 {
        c1_skip(s, data)
    } else if b == 0x9d {
        c1_time(s, data)
    } else if b == 0x95 {
        (s, Some(1))
    } else if b == 0x9a {
        (DecoderState { style: CharStyle { underline: true, ..s.style }, ..s }, Some(1))
    } else if b == 0x99 {
        (DecoderState { style: CharStyle { underline: false, ..s.style }, ..s }, Some(1))
    } else if b == 0x97 {
        c1_hlc(s, data)
    } else if b == 0x9b {
        if data.len() < 2 {
            (s, None)
        } else {
            let (s1, n) = st_csi(s, data.subrange(1, data.len() as int));
            (s1, plus_one(n))
        }
    } else {
        (s, Some(1))
    }
}

/// `v` pinned to the range of a `u32`.
pub open spec fn saturate_u32(v: int) -> u32 {
    if v > u32::MAX {
        u32::MAX
    } else {
        v as u32
    }
}

/// The CSI parameter scan from `offset`: decimal digits separated by 0x3B and
/// ended by 0x20. Gives where the scan stopped (the 0x20, or the end), the
/// two parameters, and how many were ended.
pub open spec fn csi_scan(data: Seq<u8>, offset: int, p1: u32, p2: u32, count: int) -> (
    int,
    u32,
    u32,
    int,
)
    decreases data.len() - offset,
{
    if offset >= data.len() || offset < 0 {
        (offset, p1, p2, count)
    } else {
        let b = data[offset];
        if 0x30 <= b <= 0x39 {
            let p2n = if count <= 1 {
                saturate_u32(p2 * 10 + (b & 0x0fu8))
            } else {
                p2
            };
            csi_scan(data, offset + 1, p1, p2n, count)
        } else if b == 0x20 {
            (
                offset,
                if count == 0 {
                    p2
                } else {
                    p1
                },
                p2,
                count + 1,
            )
        } else if b == 0x3b {
            if count == 0 {
                csi_scan(data, offset + 1, p2, 0, count + 1)
            } else {
                csi_scan(data, offset + 1, p1, p2, count + 1)
            }
        } else {
            csi_scan(data, offset + 1, p1, p2, count)
        }
    }
}

/// What a CSI sequence's final byte does with its parameters; `None` for an
/// ORN naming a colour outside the CLUT.
pub open spec fn csi_apply(s: DecoderState, f: u8, p1: u32, p2: u32, count: int) -> Option<
    DecoderState,
> {
    if f == 0x53 {
        // SWF
        if count == 1 && p1 <= 0xff && spec_writing_mode_for_swf(p1 as u8) is Some {
            Some(reset_writing_format(DecoderState { swf: p1 as u8, ..s }))
        } else {
            Some(s)
        }
    } else if f == 0x56 {
        // SDF
        Some(
            DecoderState {
                area_width: spec_plane_dots(p1),
                area_height: spec_plane_dots(p2),
                ..s
            },
        )
    } else if f == 0x57 {
        // SSM
        Some(
            DecoderState {
                char_width: spec_plane_dots(p1),
                char_height: spec_plane_dots(p2),
                ..s
            },
        )
    } else if f == 0x58 {
        Some(DecoderState { char_h_spacing: spec_plane_dots(p1), ..s })
    } else if f == 0x59 {
        Some(DecoderState { char_v_spacing: spec_plane_dots(p1), ..s })
    } else if f == 0x5f {
        // SDP: the pen starts at the first cell of the new area.
        let s1 = DecoderState {
            area_x: spec_plane_dots(p1),
            area_y: if count >= 2 {
                spec_plane_dots(p2)
            } else {
                s.area_y
            },
            ..s
        };
        Some(
            if !s1.pos_inited {
                set_active_position(s1, 0, 0)
            } else {
                s1
            },
        )
    } else if f == 0x61 {
        // ACPS: a physical coordinate, clamped like every other.
        Some(
            DecoderState {
                pos_inited: true,
                pos_x: spec_plane_dots(p1),
                pos_y: spec_plane_dots(p2),
                ..s
            },
        )
    } else if f == 0x63 {
        // ORN
        if p1 == 0 {
            Some(DecoderState { style: CharStyle { stroke: false, ..s.style }, ..s })
        } else if p1 == 1 && count >= 2 {
            if p2 / 100 >= 8 || p2 % 100 >= 16 {
                None
            } else {
                Some(
                    DecoderState {
                        style: CharStyle { stroke: true, ..s.style },
                        stroke_color: spec_clut((p2 / 100) as int, (p2 % 100) as int),
                        ..s
                    },
                )
            }
        } else {
            Some(s)
        }
    } else if f == 0x64 {
        // MDF
        if p1 == 0 {
            Some(DecoderState { style: CharStyle { bold: false, italic: false, ..s.style }, ..s })
        } else if p1 == 1 {
            Some(DecoderState { style: CharStyle { bold: true, ..s.style }, ..s })
        } else if p1 == 2 {
            Some(DecoderState { style: CharStyle { italic: true, ..s.style }, ..s })
        } else if p1 == 3 {
            Some(DecoderState { style: CharStyle { bold: true, italic: true, ..s.style }, ..s })
        } else {
            Some(s)
        }
    } else if f == 0x68 {
        // PRA
        Some(DecoderState { builtin_sound: Some(p1 as u8), ..s })
    } else {
        Some(s)
    }
}

/// A control sequence (after the CSI byte): its effect, and how many bytes it
/// took, up to and including its final byte.
pub open spec fn st_csi(s: DecoderState, data: Seq<u8>) -> (DecoderState, Option<int>) {
    let (offset, p1, p2, count) = csi_scan(data, 0, 0, 0, 0);
    let f_at = offset + 1;
    if f_at >= data.len() {
        (s, None)
    } else {
        match csi_apply(s, data[f_at], p1, p2, count) {
            Some(s1) => (s1, Some(f_at + 1)),
            None => (s, None),
        }
    }
}

/// A space is ideographic unless the text is Latin, UTF-8, or in half-width
/// mode.
pub open spec fn space_text(s: DecoderState) -> Seq<char> {
    if s.encoding == Encoding::JisB24 && !(s.options.replace_msz_fullwidth_ascii && s.is_msz()) {
        seq!['\u{3000}']
    } else {
        seq![' ']
    }
}

/// C0: cursor movement, shifts, and the escape.
pub open spec fn st_c0(s: DecoderState, data: Seq<u8>, nest: nat) -> (DecoderState, Option<int>)
    decreases nest, data.len(), 0nat,
{
    let b = data[0];
    if b == 0x00 || b == 0x07 || b == 0x18 || b == 0x1e || b == 0x1f {
        (s, Some(1))
    } else if b == 0x08 {
        (move_character_path(s, -1), Some(1))
    } else if b == 0x09 {
        (move_character_path(s, 1), Some(1))
    } else if b == 0x0a {
        (move_line_direction(s, 1), Some(1))
    } else if b == 0x0b {
        (move_line_direction(s, -1), Some(1))
    } else if b == 0x0c {
        // Clear screen: the caption that carries it ends whatever was on
        // display.
        (DecoderState { clear_screen: true, ..reset_state(s) }, Some(1))
    } else if b == 0x0d {
        (move_to_newline(DecoderState { text: s.text.push('\n'), ..s }), Some(1))
    } else if b == 0x0e {
        (DecoderState { gl: 1, ..s }, Some(1))
    } else if b == 0x0f {
        (DecoderState { gl: 0, ..s }, Some(1))
    } else if b == 0x16 {
        // PAPF
        if data.len() < 2 {
            (s, None)
        } else {
            (move_character_path(s, (data[1] & 0x3fu8) as int), Some(2))
        }
    } else if b == 0x19 || b == 0x1d {
        // SS2, SS3
        if data.len() < 2 {
            (s, None)
        } else {
            let entry = if b == 0x19 {
                s.gx[2]
            } else {
                s.gx[3]
            };
            let (s1, n) = st_glgr(s, data.subrange(1, data.len() as int), entry, nest);
            (s1, plus_one(n))
        }
    } else if b == 0x1b {
        if data.len() < 2 {
            (s, None)
        } else {
            let (s1, n) = st_esc(s, data.subrange(1, data.len() as int));
            (s1, plus_one(n))
        }
    } else if b == 0x1c {
        // APS
        if data.len() < 3 {
            (s, None)
        } else {
            (
                set_active_position(s, (data[1] & 0x3fu8) as int, (data[2] & 0x3fu8) as int),
                Some(3),
            )
        }
    } else if b == 0x20 {
        (move_character_path(push_text(s, space_text(s), None), 1), Some(1))
    } else {
        (s, Some(1))
    }
}

/// A graphic character from `entry`: text, a DRCS glyph, or a macro.
pub open spec fn st_glgr(s: DecoderState, data: Seq<u8>, entry: Codeset, nest: nat) -> (
    DecoderState,
    Option<int>,
)
    decreases nest, data.len(), 0nat,
{
    let ch = data[0] & 0x7fu8;
    if !(0x21 <= ch < 0x7f) {
        (s, None)
    } else if entry.bytes == 2 && (data.len() < 2 || !(0x21 <= (data[1] & 0x7fu8) < 0x7f)) {
        (s, None)
    } else {
        let ch2: u8 = if entry.bytes == 2 {
            data[1] & 0x7fu8
        } else {
            0
        };
        let s1 = match entry.set {
            GraphicSet::Macro => {
                // A macro is a canned statement body. Its bodies designate
                // sets and invoke no macro themselves.
                if 0x60 <= ch <= 0x6f && nest > 0 {
                    st_body(s, spec_default_macro((ch & 0x0fu8) as int), (nest - 1) as nat)
                } else {
                    s
                }
            },
            GraphicSet::Drcs(map_index) => {
                let key: u16 = if entry.bytes == 2 {
                    (ch as u16 * 256 + ch2 as u16) as u16
                } else {
                    ch as u16
                };
                move_character_path(push_drcs(s, map_index as int, key), 1)
            },
            GraphicSet::Kanji
            | GraphicSet::JisX0213Kanji1
            | GraphicSet::JisX0213Kanji2
            | GraphicSet::AdditionalSymbols => {
                let (c, pua) = spec_resolve_double(
                    entry.set,
                    (ch - 0x21) as u32,
                    (ch2 - 0x21) as u32,
                    s.size_context(),
                );
                move_character_path(push_text(s, seq![c], pua), 1)
            },
            _ => match spec_resolve_single(entry.set, ch, s.size_context()) {
                // A set with no text form (mosaic) consumes its byte and
                // draws nothing.
                Some(c) => move_character_path(push_text(s, seq![c], None), 1),
                None => s,
            },
        };
        (s1, Some(entry.bytes as int))
    }
}

/// The first character of a UTF-8 body and its length, when the body starts
/// with one whole, well-formed character.
pub open spec fn first_utf8_char(data: Seq<u8>) -> Option<(char, int)> {
    let head = if data.len() < 4 {
        data
    } else {
        data.take(4)
    };
    if vstd::utf8::valid_first_scalar(head) {
        Some(
            (
                vstd::utf8::decode_first_scalar(head) as char,
                vstd::utf8::length_of_first_scalar(head),
            ),
        )
    } else {
        None
    }
}

/// A character of a UTF-8 body. STD-B24 maps DRCS into the private use area
/// from U+EC00.
pub open spec fn st_utf8(s: DecoderState, data: Seq<u8>) -> (DecoderState, Option<int>) {
    match first_utf8_char(data) {
        None => (s, None),
        Some((c, len)) => {
            let cp = c as u32;
            let s1 = if 0xec00 <= cp <= 0xf8ff {
                push_drcs(s, 0, cp as u16)
            } else {
                push_text(s, seq![c], None)
            };
            (move_character_path(s1, 1), Some(len))
        },
    }
}

/// One code of a statement body, by the range its first byte falls in.
pub open spec fn st_step(s: DecoderState, data: Seq<u8>, nest: nat) -> (DecoderState, Option<int>)
    decreases nest, data.len(), 1nat,
{
    let ch = data[0];
    if s.encoding == Encoding::Utf8 {
        if ch <= 0x1f {
            st_c0(s, data, nest)
        } else if ch == 0x7f {
            st_c1(s, data)
        } else if ch == 0xc2 && data.len() >= 2 && 0x80 <= data[1] <= 0x9f {
            // C1 codes appear as their UTF-8 two-byte form.
            let (s1, n) = st_c1(s, data.subrange(1, data.len() as int));
            (s1, plus_one(n))
        } else {
            st_utf8(s, data)
        }
    } else if ch <= 0x20 {
        st_c0(s, data, nest)
    } else if ch < 0x7f {
        st_glgr(s, data, s.gx[s.gl], nest)
    } else if ch <= 0xa0 {
        st_c1(s, data)
    } else if ch < 0xff {
        st_glgr(s, data, s.gx[s.gr], nest)
    } else {
        (s, Some(1))
    }
}

/// A statement body, code by code. A body that ends inside a control code
/// stops there and keeps what it decoded.
pub open spec fn st_body(s: DecoderState, data: Seq<u8>, nest: nat) -> DecoderState
    decreases nest, data.len(), 2nat,
{
    if data.len() == 0 {
        s
    } else {
        let (s1, n) = st_step(s, data, nest);
        match n {
            Some(k) => if 0 < k <= data.len() {
                st_body(s1, data.subrange(k, data.len() as int), nest)
            } else {
                s1
            },
            None => s1,
        }
    }
}

// ── DRCS ────────────────────────────────────────────────────────────

/// The number of bits it takes to write `v`.
pub open spec fn bit_length(v: u32) -> nat
    decreases v,
{
    if v == 0 {
        0
    } else {
        1 + bit_length(v / 2)
    }
}

/// The bits per pixel that index `depth` levels.
pub open spec fn depth_bits_for(depth: u32) -> u32 {
    let b = bit_length((depth - 1) as u32);
    if b < 1 {
        1
    } else {
        b as u32
    }
}

/// Lowercase hex digits of some bytes.
pub open spec fn hex_digit(v: u8) -> char {
    if v < 10 {
        (0x30 + v) as char
    } else {
        (0x61 + v - 10) as char
    }
}

pub open spec fn hex_of(bytes: Seq<u8>) -> Seq<char>
    decreases bytes.len(),
{
    if bytes.len() == 0 {
        Seq::empty()
    } else {
        seq![hex_digit(bytes[0] / 16), hex_digit(bytes[0] % 16)] + hex_of(bytes.drop_first())
    }
}

/// The MD5 digest `md5::compute` gives of some bytes.
pub uninterp spec fn md5_of(data: Seq<u8>) -> Seq<u8>;

/// Where a DRCS-1 character code files its glyph: the DRCS set its high
/// byte's low nibble names, under the 7-bit character.
pub open spec fn drcs1_slot(code: u16) -> Option<(int, u16)> {
    let final_byte = (((code & 0x0f00u16) >> 8u16) + 0x40) as u8;
    match spec_drcs_set_by_final(final_byte) {
        Some(c) => match c.set {
            GraphicSet::Drcs(index) => Some((index as int, ((code & 0x00ffu16) & 0x7fu16) as u16)),
            _ => None,
        },
        None => None,
    }
}

/// Where a DRCS-2 character code files its glyph: its private-use code when
/// it has one, its two 7-bit bytes otherwise.
pub open spec fn drcs2_key(code: u16) -> u16 {
    if 0xec00 <= code <= 0xf8ff {
        code
    } else {
        code & 0x7f7fu16
    }
}

/// A glyph into the DRCS tables.
pub open spec fn file_drcs(maps: Seq<Map<u16, DrcsView>>, code: u16, byte_count: int, d: DrcsView) -> Seq<
    Map<u16, DrcsView>,
> {
    if byte_count == 1 {
        match drcs1_slot(code) {
            Some((index, key)) => maps.update(index, maps[index].insert(key, d)),
            None => maps,
        }
    } else {
        maps.update(0, maps[0].insert(drcs2_key(code), d))
    }
}

/// The fonts of one DRCS character code, `n` of them from `offset`: the
/// tables after them, and where the next code starts (`None` when the unit
/// ran out first).
pub open spec fn drcs_fonts(
    maps: Seq<Map<u16, DrcsView>>,
    data: Seq<u8>,
    offset: int,
    code: u16,
    n: int,
    byte_count: int,
) -> (Seq<Map<u16, DrcsView>>, Option<int>)
    decreases n,
{
    if n <= 0 {
        (maps, Some(offset))
    } else if offset >= data.len() {
        (maps, None)
    } else {
        let mode = data[offset] & 0x0fu8;
        let at = offset + 1;
        if mode == 0 || mode == 1 {
            if at + 3 > data.len() {
                (maps, None)
            } else {
                let depth = (data[at] + 2) as u32;
                let width = data[at + 1] as u32;
                let height = data[at + 2] as u32;
                let bits = depth_bits_for(depth);
                let size = (width * height * bits + 7) / 8;
                let start = at + 3;
                if start + size > data.len() {
                    (maps, None)
                } else {
                    let pixels = data.subrange(start, start + size);
                    let d = DrcsView {
                        width,
                        height,
                        depth,
                        depth_bits: bits,
                        pixels,
                        md5: hex_of(md5_of(pixels)),
                        alternative: None,
                    };
                    drcs_fonts(
                        file_drcs(maps, code, byte_count, d),
                        data,
                        start + size,
                        code,
                        n - 1,
                        byte_count,
                    )
                }
            }
        } else {
            // Geometric font data: not a bitmap, and nothing here draws it.
            if at + 4 > data.len() {
                (maps, None)
            } else {
                let length = data[at + 2] * 256 + data[at + 3];
                drcs_fonts(maps, data, at + 4 + length, code, n - 1, byte_count)
            }
        }
    }
}

/// `n` DRCS character codes from `offset`.
pub open spec fn drcs_codes(
    maps: Seq<Map<u16, DrcsView>>,
    data: Seq<u8>,
    offset: int,
    n: int,
    byte_count: int,
) -> Seq<Map<u16, DrcsView>>
    decreases n,
{
    if n <= 0 || offset + 3 > data.len() {
        maps
    } else {
        let code = (data[offset] * 256 + data[offset + 1]) as u16;
        match drcs_fonts(maps, data, offset + 3, code, data[offset + 2] as int, byte_count) {
            (m, None) => m,
            (m, Some(next)) => drcs_codes(m, data, next, n - 1, byte_count),
        }
    }
}

/// A DRCS data unit: its glyphs into the tables the statements draw from.
pub open spec fn parse_drcs(s: DecoderState, data: Seq<u8>, byte_count: int) -> DecoderState {
    if data.len() == 0 {
        s
    } else {
        DecoderState {
            drcs_maps: drcs_codes(s.drcs_maps, data, 1, data[0] as int, byte_count),
            ..s
        }
    }
}

// ── data groups ─────────────────────────────────────────────────────

/// One data unit. Bitmap, geometric shape and colour map units are
/// presentation data no text rendering can carry.
pub open spec fn handle_unit(s: DecoderState, kind: DataUnitKind, bytes: Seq<u8>) -> DecoderState {
    match kind {
        DataUnitKind::StatementBody => st_body(s, bytes, 1),
        DataUnitKind::Drcs1 => parse_drcs(s, bytes, 1),
        DataUnitKind::Drcs2 => parse_drcs(s, bytes, 2),
        _ => s,
    }
}

/// The data units of a data group, in order; the error that ends a malformed
/// loop is given back with the state reached before it.
pub open spec fn handle_units(s: DecoderState, rest: Seq<u8>) -> (DecoderState, Option<ParseError>)
    decreases rest.len(),
{
    match spec_next_unit(rest) {
        None => (s, None),
        Some((Err(e), _)) => (s, Some(e)),
        Some((Ok((kind, bytes)), next)) => if next.len() < rest.len() {
            handle_units(handle_unit(s, kind, bytes), next)
        } else {
            (s, None)
        },
    }
}

/// The first language entry with the given id.
pub open spec fn find_language(languages: Seq<LanguageInfo>, id: u8) -> Option<LanguageInfo>
    decreases languages.len(),
{
    if languages.len() == 0 {
        None
    } else if languages[0].language_id == id {
        Some(languages[0])
    } else {
        find_language(languages.drop_first(), id)
    }
}

pub open spec fn wrong_stream_message() -> Seq<char> {
    "data_identifier is not the stream this decoder was made for"@
}

pub open spec fn reserved_format_message() -> Seq<char> {
    "reserved management writing format"@
}

/// What decoding reports once the units are done: nothing, when there is
/// nothing to show, to clear, or to time; otherwise the caption, with the
/// per-caption state handed over to it.
pub open spec fn finish(s: DecoderState, pts_ms: Option<i64>) -> (
    DecoderState,
    Result<Option<CaptionView>, DecodeFailure>,
) {
    if s.regions.len() == 0 && !s.clear_screen && s.wait_ms is None {
        (s, Ok(None))
    } else {
        (
            DecoderState {
                text: Seq::empty(),
                regions: Seq::empty(),
                drcs_used: Map::empty(),
                wait_ms: None,
                builtin_sound: None,
                ..s
            },
            Ok(
                Some(
                    CaptionView {
                        kind: s.kind,
                        language: s.language,
                        text: s.text,
                        regions: s.regions,
                        drcs: s.drcs_used,
                        pts_ms,
                        duration: match s.wait_ms {
                            Some(ms) => Duration::Millis(ms),
                            None => Duration::Indefinite,
                        },
                        clear_screen: s.clear_screen,
                        plane_width: s.plane_width,
                        plane_height: s.plane_height,
                        builtin_sound: s.builtin_sound,
                    },
                ),
            ),
        )
    }
}

/// The units of a data group, then the caption they make.
pub open spec fn run_units(s: DecoderState, units: Seq<u8>, pts_ms: Option<i64>) -> (
    DecoderState,
    Result<Option<CaptionView>, DecodeFailure>,
) {
    let (s1, err) = handle_units(s, units);
    match err {
        Some(e) => (s1, Err(DecodeFailure::Pes(e))),
        None => finish(s1, pts_ms),
    }
}

/// The per-caption accumulation emptied, as every data group starts.
pub open spec fn begin_caption(s: DecoderState) -> DecoderState {
    DecoderState {
        regions: Seq::empty(),
        text: Seq::empty(),
        drcs_used: Map::empty(),
        clear_screen: false,
        wait_ms: None,
        ..s
    }
}

/// The state a decoder starts from, for its kind of stream and options: the
/// default writing format, graphic sets and colours, no DRCS glyph, no
/// management data applied, nothing accumulated.
pub open spec fn initial_state(kind: CaptionKind, options: Options) -> DecoderState {
    reset_state(
        DecoderState {
            kind,
            options,
            encoding: Encoding::JisB24,
            gx: seq![Codeset { set: GraphicSet::Kanji, bytes: 2 }; 4],
            gl: 0,
            gr: 2,
            drcs_maps: Seq::new(16, |i: int| Map::empty()),
            swf: 7,
            plane_width: 960,
            plane_height: 540,
            area_x: 0,
            area_y: 0,
            area_width: 960,
            area_height: 540,
            char_width: 36,
            char_height: 36,
            char_h_spacing: 4,
            char_v_spacing: 24,
            char_h_scale: Scale::One,
            char_v_scale: Scale::One,
            pos_inited: false,
            pos_x: 0,
            pos_y: 0,
            palette: 0,
            text_color: spec_clut(0, 7),
            back_color: spec_clut(0, 8),
            stroke_color: transparent(),
            style: CharStyle { bold: false, italic: false, underline: false, stroke: false },
            enclosure: Enclosure { top: false, right: false, bottom: false, left: false },
            regions: Seq::empty(),
            text: Seq::empty(),
            drcs_used: Map::empty(),
            clear_screen: false,
            wait_ms: None,
            builtin_sound: None,
            language: [0x6a, 0x70, 0x6e],
            prev_management_group: None,
        },
    )
}

/// The units of management data: read for the DRCS glyphs they define, which
/// apply to the statements that follow. Management data makes no caption:
/// whatever its units would have put on screen is dropped with the
/// per-caption accumulation.
pub open spec fn management_units(s: DecoderState, units: Seq<u8>, pts_ms: Option<i64>) -> (
    DecoderState,
    Result<Option<CaptionView>, DecodeFailure>,
) {
    let (s1, err) = handle_units(s, units);
    match err {
        Some(e) => (s1, Err(DecodeFailure::Pes(e))),
        None => (finish(s1, pts_ms).0, Ok(None)),
    }
}

/// Management data: a repeat of the current interleave group is ignored; a
/// reserved writing format for the selected language is refused before any
/// management state changes; otherwise the language's settings take effect,
/// the state resets, and the units (DRCS definitions) are read. It never
/// yields a caption.
pub open spec fn management(
    s: DecoderState,
    group: Group,
    languages: Seq<LanguageInfo>,
    units: Seq<u8>,
    pts_ms: Option<i64>,
) -> (DecoderState, Result<Option<CaptionView>, DecodeFailure>) {
    if s.prev_management_group == Some(group) {
        (s, Ok(None))
    } else {
        match find_language(languages, s.options.language_id) {
            Some(lang) => match spec_management_format_to_swf(lang.format) {
                None => (s, Err(DecodeFailure::Malformed(reserved_format_message()))),
                Some(swf) => management_units(
                    reset_state(
                        DecoderState {
                            prev_management_group: Some(group),
                            language: lang.iso639,
                            swf,
                            encoding: if lang.tcs == 1 {
                                Encoding::Utf8
                            } else {
                                Encoding::JisB24
                            },
                            ..s
                        },
                    ),
                    units,
                    pts_ms,
                ),
            },
            None => management_units(
                reset_state(DecoderState { prev_management_group: Some(group), ..s }),
                units,
                pts_ms,
            ),
        }
    }
}

/// One caption PES payload through the decoder.
pub open spec fn spec_decode(s: DecoderState, payload: Seq<u8>, pts_ms: Option<i64>) -> (
    DecoderState,
    Result<Option<CaptionView>, DecodeFailure>,
) {
    match spec_parse(payload) {
        Err(e) => (s, Err(DecodeFailure::Pes(e))),
        Ok((kind, header, group)) => if kind != s.kind {
            (s, Err(DecodeFailure::Malformed(wrong_stream_message())))
        } else {
            let s1 = begin_caption(s);
            match group {
                GroupLayout::Management { languages, units, .. } => management(
                    s1,
                    header.group,
                    languages,
                    units,
                    pts_ms,
                ),
                GroupLayout::Statement { language_id, units, .. } => if language_id
                    != s1.options.language_id {
                    (s1, Ok(None))
                } else {
                    run_units(s1, units, pts_ms)
                },
            }
        },
    }
}

} // verus!
