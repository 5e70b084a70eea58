//! The caption model: what a decoded caption *is*, with no opinion about how
//! it gets drawn.
//!
//! The decoder produces [`Caption`] values and nothing else; a renderer
//! consumes them and emits WebVTT, ASS, or pixels.
//!
//! Coordinates are in the caption plane the broadcast declared
//! ([`Caption::plane_width`] × [`Caption::plane_height`], typically 960×540
//! for full-seg), origin top-left.
use std::collections::HashMap;
use vstd::prelude::*;

use crate::text::{code_text, lossy_utf8};

verus! {

/// Colour with straight (non-premultiplied) alpha.
#[derive(Clone, Copy, Debug, PartialEq, Eq, Structural)]
pub struct Rgba {
    pub r: u8,
    pub g: u8,
    pub b: u8,
    pub a: u8,
}

impl Rgba {
    pub open spec fn spec_new(r: u8, g: u8, b: u8, a: u8) -> Rgba {
        Rgba { r, g, b, a }
    }

    /// Fully transparent black.
    pub fn transparent() -> (c: Rgba)
        ensures
            c == Rgba::spec_new(0, 0, 0, 0),
    {
        Rgba { r: 0, g: 0, b: 0, a: 0 }
    }

    pub fn new(r: u8, g: u8, b: u8, a: u8) -> (c: Rgba)
        ensures
            c == Rgba::spec_new(r, g, b, a),
    {
        Rgba { r, g, b, a }
    }

    /// The colour 0xAARRGGBB stands for, the form the B24 CLUT is written in.
    pub open spec fn spec_from_argb(argb: u32) -> Rgba {
        Rgba {
            r: ((argb >> 16u32) & 0xffu32) as u8,
            g: ((argb >> 8u32) & 0xffu32) as u8,
            b: (argb & 0xffu32) as u8,
            a: ((argb >> 24u32) & 0xffu32) as u8,
        }
    }

    /// 0xAARRGGBB, the form the B24 CLUT tables are written in.
    pub fn from_argb(argb: u32) -> (c: Rgba)
        ensures
            c == Rgba::spec_from_argb(argb),
    {
        Rgba {
            r: ((argb >> 16) & 0xff) as u8,
            g: ((argb >> 8) & 0xff) as u8,
            b: (argb & 0xff) as u8,
            a: ((argb >> 24) & 0xff) as u8,
        }
    }

    pub fn is_transparent(&self) -> (t: bool)
        ensures
            t == (self.a == 0),
    {
        self.a == 0
    }
}

impl Default for Rgba {
    fn default() -> (c: Rgba)
        ensures
            c == Rgba::spec_new(0, 0, 0, 0),
    {
        Rgba { r: 0, g: 0, b: 0, a: 0 }
    }
}

/// Which stream the caption came from.
///
/// The two live on different PIDs and are decoded by separate instances: a
/// superimpose (emergency crawl, sports score flash) is not a subtitle and
/// must not be merged into the subtitle track.
#[derive(Clone, Copy, Debug, PartialEq, Eq, Structural)]
pub enum CaptionKind {
    /// `data_identifier` 0x80 — closed caption proper.
    Caption,
    /// `data_identifier` 0x81 — superimpose.
    Superimpose,
}

/// Caption profile, which decides the default code sets and the plane size.
#[derive(Clone, Copy, Debug, PartialEq, Eq, Structural)]
pub enum Profile {
    /// Full-seg (ARIB STD-B24 profile A): 960×540 or 720×480 planes.
    A,
    /// One-seg (profile C): a 320×180 plane, DRCS-heavy.
    C,
}

/// How the statement bytes are encoded.
#[derive(Clone, Copy, Debug, PartialEq, Eq, Structural)]
pub enum Encoding {
    /// ARIB STD-B24 JIS — the 8-bit ISO/IEC 2022 variant.
    JisB24,
    /// ARIB STD-B24 with a UTF-8 code set (TCS = 1).
    Utf8,
    /// ABNT NBR 15606-1 Latin (SBTVD).
    Latin,
}

/// Per-character styling flags.
#[derive(Clone, Copy, Debug, PartialEq, Eq, Structural)]
pub struct CharStyle {
    pub bold: bool,
    pub italic: bool,
    pub underline: bool,
    /// Outlined text (ARIB "ornament" / stroke), drawn in [`CaptionChar::stroke_color`].
    pub stroke: bool,
}

impl CharStyle {
    /// No flag set.
    pub open spec fn spec_plain() -> CharStyle {
        CharStyle { bold: false, italic: false, underline: false, stroke: false }
    }

    pub fn is_default(&self) -> (d: bool)
        ensures
            d == (*self == CharStyle::spec_plain()),
    {
        !self.bold && !self.italic && !self.underline && !self.stroke
    }
}

impl Default for CharStyle {
    fn default() -> (s: CharStyle)
        ensures
            s == CharStyle::spec_plain(),
    {
        CharStyle { bold: false, italic: false, underline: false, stroke: false }
    }
}

/// Which sides of the character cell carry a rule (ARIB enclosure).
#[derive(Clone, Copy, Debug, PartialEq, Eq, Structural)]
pub struct Enclosure {
    pub top: bool,
    pub right: bool,
    pub bottom: bool,
    pub left: bool,
}

impl Enclosure {
    /// No side ruled.
    pub open spec fn spec_none() -> Enclosure {
        Enclosure { top: false, right: false, bottom: false, left: false }
    }

    pub fn is_none(&self) -> (n: bool)
        ensures
            n == (*self == Enclosure::spec_none()),
    {
        !self.top && !self.right && !self.bottom && !self.left
    }
}

impl Default for Enclosure {
    fn default() -> (e: Enclosure)
        ensures
            e == Enclosure::spec_none(),
    {
        Enclosure { top: false, right: false, bottom: false, left: false }
    }
}

/// The value of `n` bits of a packed, most-significant-bit-first bitmap,
/// starting at bit `start`, as a 32-bit accumulator; `None` when a byte the
/// bits live in is missing.
pub open spec fn packed_bits(pixels: Seq<u8>, start: int, n: nat) -> Option<u32>
    decreases n,
{
    if n == 0 {
        Some(0u32)
    } else {
        match packed_bits(pixels, start, (n - 1) as nat) {
            None => None,
            Some(v) => {
                let at = start + n - 1;
                if at / 8 < pixels.len() {
                    let bit = ((pixels[at / 8] >> ((7 - at % 8) as u8)) & 1u8) as u32;
                    Some(((v << 1u32) | bit) as u32)
                } else {
                    None
                }
            },
        }
    }
}

/// A DRCS glyph: a bitmap the broadcast defined on the fly, for a character
/// that is not in any code set.
#[derive(Clone, Debug, PartialEq, Eq)]
pub struct Drcs {
    pub width: u32,
    pub height: u32,
    /// The number of distinct levels a pixel can take.
    pub depth: u32,
    /// How many bits each pixel occupies.
    pub depth_bits: u32,
    /// The bitmap exactly as transmitted: `depth_bits` per pixel, packed
    /// most-significant-bit first, row-major, with no padding between rows.
    pub pixels: Vec<u8>,
    /// Lowercase hex MD5 of `pixels` — the key a replacement table uses.
    pub md5: String,
    /// The Unicode character this glyph is known to stand for, if known.
    pub alternative: Option<char>,
}

/// What a [`Drcs`] holds, as values.
pub struct DrcsView {
    pub width: u32,
    pub height: u32,
    pub depth: u32,
    pub depth_bits: u32,
    pub pixels: Seq<u8>,
    pub md5: Seq<char>,
    pub alternative: Option<char>,
}

impl Drcs {
    pub open spec fn view(&self) -> DrcsView {
        DrcsView {
            width: self.width,
            height: self.height,
            depth: self.depth,
            depth_bits: self.depth_bits,
            pixels: self.pixels@,
            md5: self.md5@,
            alternative: self.alternative,
        }
    }

    /// A copy of this glyph.
    pub fn duplicate(&self) -> (d: Drcs)
        ensures
            d.view() == self.view(),
    {
        Drcs {
            width: self.width,
            height: self.height,
            depth: self.depth,
            depth_bits: self.depth_bits,
            pixels: self.pixels.clone(),
            md5: self.md5.clone(),
            alternative: self.alternative,
        }
    }

    /// The level of pixel (x, y): 0 outside the bitmap or when its bits are
    /// missing, otherwise its `depth_bits` bits read most significant first,
    /// truncated to a byte.
    pub open spec fn spec_level(self, x: u32, y: u32) -> u8 {
        if x >= self.width || y >= self.height || self.depth_bits == 0 {
            0
        } else {
            match packed_bits(
                self.pixels@,
                ((y * self.width + x) * self.depth_bits) as int,
                self.depth_bits as nat,
            ) {
                Some(v) => v as u8,
                None => 0,
            }
        }
    }

    /// The bit position of pixel (x, y) and the bits it spans stay within a
    /// `u32`, the width the bitmap arithmetic works in.
    pub open spec fn bits_fit(self, x: u32, y: u32) -> bool {
        x < self.width && y < self.height && self.depth_bits != 0 ==> (y * self.width + x)
            * self.depth_bits + self.depth_bits <= u32::MAX + 1
    }

    /// A bitmap whose bits can all be numbered in a `u32` has every pixel's
    /// bits in reach.
    pub proof fn lemma_bits_fit(self, x: u32, y: u32)
        requires
            self.width * self.height * self.depth_bits <= u32::MAX + 1,
        ensures
            self.bits_fit(x, y),
    {
        if x < self.width && y < self.height && self.depth_bits != 0 {
            let w = self.width as int;
            let h = self.height as int;
            let d = self.depth_bits as int;
            assert(y * w + x < w * h) by (nonlinear_arith)
                requires
                    0 <= x < w,
                    0 <= y < h,
            ;
            assert((y * w + x) * d + d <= w * h * d) by (nonlinear_arith)
                requires
                    y * w + x < w * h,
                    d >= 1,
            ;
        }
    }

    /// The level of one pixel, 0 (background) to `depth - 1` (full ink).
    pub fn level(&self, x: u32, y: u32) -> (l: u8)
        requires
            self.bits_fit(x, y),
        ensures
            l == self.spec_level(x, y),
    {
        if x >= self.width || y >= self.height || self.depth_bits == 0 {
            return 0;
        }
        proof {
            let w = self.width as int;
            let d = self.depth_bits as int;
            assert(y * w <= y * w + x);
            assert(y * w + x <= (y * w + x) * d) by (nonlinear_arith)
                requires
                    d >= 1,
                    y * w + x >= 0,
            ;
        }
        let bit = (y * self.width + x) * self.depth_bits;
        let mut value = 0u32;
        let mut i = 0u32;
        while i < self.depth_bits
            invariant
                0 <= i <= self.depth_bits,
                bit + self.depth_bits <= u32::MAX + 1,
                bit == (y * self.width + x) * self.depth_bits,
                packed_bits(self.pixels@, bit as int, i as nat) == Some(value),
            decreases self.depth_bits - i,
        {
            let at = bit + i;
            if (at / 8) as usize >= self.pixels.len() {
                proof {
                    assert(packed_bits(self.pixels@, bit as int, (i + 1) as nat) is None);
                    lemma_packed_bits_none_extends(self.pixels@, bit as int, (i + 1) as nat,
                        self.depth_bits as nat);
                }
                return 0;
            }
            let byte = self.pixels[(at / 8) as usize];
            let set = (byte >> (7 - (at % 8)) as u8) & 1;
            value = (value << 1) | set as u32;
            i = i + 1;
        }
        #[verifier::truncate]
        (value as u8)
    }
}

/// Once some bit is missing, every longer read is missing too.
proof fn lemma_packed_bits_none_extends(pixels: Seq<u8>, start: int, n: nat, m: nat)
    requires
        n <= m,
        packed_bits(pixels, start, n) is None,
    ensures
        packed_bits(pixels, start, m) is None,
    decreases m - n,
{
    if n < m {
        lemma_packed_bits_none_extends(pixels, start, n + 1, m);
        if packed_bits(pixels, start, m) is Some {
        }
        assert(packed_bits(pixels, start, (n + 1) as nat) is None);
    }
}

/// What a [`CaptionChar`] carries.
#[derive(Clone, Debug, PartialEq, Eq)]
pub enum CharBody {
    /// An ordinary character. `pua` is the Private Use Area codepoint for ARIB
    /// additional symbols (gaiji).
    Text { text: String, pua: Option<char> },
    /// A DRCS glyph, keyed into [`Caption::drcs`] by this code.
    Drcs { code: u32 },
    /// A DRCS glyph a replacement table resolved to a real character. The code
    /// is kept so a pixel renderer can still draw the transmitted glyph.
    DrcsReplaced { text: String, code: u32 },
}

/// What a [`CharBody`] holds, as values.
pub enum BodyView {
    Text { text: Seq<char>, pua: Option<char> },
    Drcs { code: u32 },
    DrcsReplaced { text: Seq<char>, code: u32 },
}

impl CharBody {
    pub open spec fn view(&self) -> BodyView {
        match self {
            CharBody::Text { text, pua } => BodyView::Text { text: text@, pua: *pua },
            CharBody::Drcs { code } => BodyView::Drcs { code: *code },
            CharBody::DrcsReplaced { text, code } => BodyView::DrcsReplaced {
                text: text@,
                code: *code,
            },
        }
    }
}

/// A character cell's scale along one axis: half, normal or double.
#[derive(Clone, Copy, Debug, PartialEq, Eq, Structural)]
pub enum Scale {
    Half,
    One,
    Double,
}

impl Scale {
    /// The scale counted in halves: 1, 2 or 4.
    pub open spec fn halves(self) -> int {
        match self {
            Scale::Half => 1,
            Scale::One => 2,
            Scale::Double => 4,
        }
    }

    pub fn as_halves(&self) -> (h: u8)
        ensures
            h == self.halves(),
    {
        match self {
            Scale::Half => 1,
            Scale::One => 2,
            Scale::Double => 4,
        }
    }
}

/// `v` pinned into the range of an `i32`.
pub open spec fn clamp_i32(v: int) -> i32 {
    if v < i32::MIN {
        i32::MIN
    } else if v > i32::MAX {
        i32::MAX
    } else {
        v as i32
    }
}

/// A cell's extent along one axis: the glyph plus its spacing, scaled, rounded
/// down.
pub open spec fn spec_section(size: i32, spacing: i32, scale: Scale) -> i32 {
    clamp_i32(((size + spacing) * scale.halves()) / 2)
}

/// [`spec_section`], computed.
pub fn section(size: i32, spacing: i32, scale: Scale) -> (s: i32)
    ensures
        s == spec_section(size, spacing, scale),
{
    let sum: i64 = size as i64 + spacing as i64;
    let n: i64 = match scale {
        Scale::Half => sum,
        Scale::One => sum * 2,
        Scale::Double => sum * 4,
    };
    let q: i64 = if n >= 0 {
        n / 2
    } else {
        -((-n + 1) / 2)
    };
    assert(q == n / 2);
    if q < i32::MIN as i64 {
        i32::MIN
    } else if q > i32::MAX as i64 {
        i32::MAX
    } else {
        q as i32
    }
}

/// One character cell, positioned in the caption plane.
#[derive(Clone, Debug, PartialEq, Eq)]
pub struct CaptionChar {
    pub body: CharBody,
    pub x: i32,
    pub y: i32,
    pub char_width: i32,
    pub char_height: i32,
    pub char_horizontal_spacing: i32,
    pub char_vertical_spacing: i32,
    pub char_horizontal_scale: Scale,
    pub char_vertical_scale: Scale,
    pub text_color: Rgba,
    pub back_color: Rgba,
    pub stroke_color: Rgba,
    pub style: CharStyle,
    pub enclosure: Enclosure,
}

/// What a [`CaptionChar`] holds, as values.
pub struct CharView {
    pub body: BodyView,
    pub x: int,
    pub y: int,
    pub char_width: int,
    pub char_height: int,
    pub char_horizontal_spacing: int,
    pub char_vertical_spacing: int,
    pub char_horizontal_scale: Scale,
    pub char_vertical_scale: Scale,
    pub text_color: Rgba,
    pub back_color: Rgba,
    pub stroke_color: Rgba,
    pub style: CharStyle,
    pub enclosure: Enclosure,
}

/// A cell's extent along one axis, for sizes that need no clamping.
pub open spec fn section_of(size: int, spacing: int, scale: Scale) -> int {
    ((size + spacing) * scale.halves()) / 2
}

impl CharView {
    pub open spec fn section_width(self) -> int {
        section_of(self.char_width, self.char_horizontal_spacing, self.char_horizontal_scale)
    }

    pub open spec fn section_height(self) -> int {
        section_of(self.char_height, self.char_vertical_spacing, self.char_vertical_scale)
    }
}

impl CaptionChar {
    pub open spec fn view(&self) -> CharView {
        CharView {
            body: self.body.view(),
            x: self.x as int,
            y: self.y as int,
            char_width: self.char_width as int,
            char_height: self.char_height as int,
            char_horizontal_spacing: self.char_horizontal_spacing as int,
            char_vertical_spacing: self.char_vertical_spacing as int,
            char_horizontal_scale: self.char_horizontal_scale,
            char_vertical_scale: self.char_vertical_scale,
            text_color: self.text_color,
            back_color: self.back_color,
            stroke_color: self.stroke_color,
            style: self.style,
            enclosure: self.enclosure,
        }
    }

    pub open spec fn spec_section_width(&self) -> i32 {
        spec_section(self.char_width, self.char_horizontal_spacing, self.char_horizontal_scale)
    }

    pub open spec fn spec_section_height(&self) -> i32 {
        spec_section(self.char_height, self.char_vertical_spacing, self.char_vertical_scale)
    }

    /// Width of the cell including spacing and scaling — what advances the pen.
    pub fn section_width(&self) -> (w: i32)
        ensures
            w == self.spec_section_width(),
    {
        section(self.char_width, self.char_horizontal_spacing, self.char_horizontal_scale)
    }

    /// Height of the cell including spacing and scaling.
    pub fn section_height(&self) -> (h: i32)
        ensures
            h == self.spec_section_height(),
    {
        section(self.char_height, self.char_vertical_spacing, self.char_vertical_scale)
    }

    /// The text a cell contributes to a plain-text rendering, if it has any.
    pub open spec fn spec_text(&self) -> Option<Seq<char>> {
        match self.body {
            CharBody::Text { text, .. } => Some(text@),
            CharBody::DrcsReplaced { text, .. } => Some(text@),
            CharBody::Drcs { .. } => None,
        }
    }

    /// The text this cell contributes to a plain-text rendering, if any.
    pub fn text(&self) -> (t: Option<&str>)
        ensures
            t.is_some() == self.spec_text().is_some(),
            t matches Some(s) ==> Some(s@) == self.spec_text(),
    {
        match &self.body {
            CharBody::Text { text, .. } => Some(text.as_str()),
            CharBody::DrcsReplaced { text, .. } => Some(text.as_str()),
            CharBody::Drcs { .. } => None,
        }
    }
}

/// The character and line progression of one caption region.
#[derive(Clone, Copy, Debug, PartialEq, Eq, Structural)]
pub enum WritingMode {
    /// Characters progress left-to-right; lines progress top-to-bottom.
    HorizontalTb,
    /// Characters progress top-to-bottom; columns progress right-to-left.
    VerticalRl,
}

impl Default for WritingMode {
    fn default() -> (m: WritingMode)
        ensures
            m == WritingMode::HorizontalTb,
    {
        WritingMode::HorizontalTb
    }
}

/// A contiguous run of characters on one character path — the unit a renderer
/// positions.
#[derive(Clone, Debug, PartialEq, Eq)]
pub struct CaptionRegion {
    pub chars: Vec<CaptionChar>,
    pub x: i32,
    pub y: i32,
    pub width: i32,
    pub height: i32,
    pub writing_mode: WritingMode,
    /// Ruby (furigana): half-height text riding above another region.
    pub is_ruby: bool,
}

/// What a [`CaptionRegion`] holds, as values.
pub struct RegionView {
    pub chars: Seq<CharView>,
    pub x: int,
    pub y: int,
    pub width: int,
    pub height: int,
    pub writing_mode: WritingMode,
    pub is_ruby: bool,
}

impl CaptionRegion {
    pub open spec fn view(&self) -> RegionView {
        RegionView {
            chars: self.chars@.map_values(|c: CaptionChar| c.view()),
            x: self.x as int,
            y: self.y as int,
            width: self.width as int,
            height: self.height as int,
            writing_mode: self.writing_mode,
            is_ruby: self.is_ruby,
        }
    }
}

/// The views of a run of regions.
pub open spec fn regions_view(regions: Seq<CaptionRegion>) -> Seq<RegionView> {
    regions.map_values(|r: CaptionRegion| r.view())
}

/// The views of the glyphs in a table.
pub open spec fn drcs_map_view<K>(m: Map<K, Drcs>) -> Map<K, DrcsView> {
    m.map_values(|d: Drcs| d.view())
}

impl Default for CaptionRegion {
    fn default() -> (r: CaptionRegion)
        ensures
            r.chars@.len() == 0,
            r.x == 0 && r.y == 0 && r.width == 0 && r.height == 0,
            r.writing_mode == WritingMode::HorizontalTb,
            !r.is_ruby,
    {
        CaptionRegion {
            chars: Vec::new(),
            x: 0,
            y: 0,
            width: 0,
            height: 0,
            writing_mode: WritingMode::HorizontalTb,
            is_ruby: false,
        }
    }
}

/// How long a caption stays up.
#[derive(Clone, Copy, Debug, PartialEq, Eq, Structural)]
pub enum Duration {
    /// The broadcast gave no end time: show it until the next caption arrives.
    Indefinite,
    Millis(u32),
}

/// A decoded caption: everything needed to present one screen of text.
#[derive(Clone, Debug, PartialEq, Eq)]
pub struct Caption {
    pub kind: CaptionKind,
    /// ISO 639-2 code as transmitted, e.g. `jpn`.
    pub language: [u8; 3],
    /// Plain text of the caption, ruby excluded, lines joined by `\n`.
    pub text: String,
    pub regions: Vec<CaptionRegion>,
    /// DRCS glyphs defined for this caption, keyed by the code a
    /// [`CharBody::Drcs`] cell names.
    pub drcs: HashMap<u32, Drcs>,
    /// Presentation timestamp in milliseconds, taken from the PES that carried
    /// it. `None` when the caller had no PTS to give.
    pub pts_ms: Option<i64>,
    pub duration: Duration,
    /// Clear whatever is on screen before presenting this one (CS).
    pub clear_screen: bool,
    pub plane_width: i32,
    pub plane_height: i32,
    /// The caption asked for a built-in sound to be played.
    pub builtin_sound: Option<u8>,
}

/// What a [`Caption`] holds, as values.
pub struct CaptionView {
    pub kind: CaptionKind,
    pub language: [u8; 3],
    pub text: Seq<char>,
    pub regions: Seq<RegionView>,
    pub drcs: Map<u32, DrcsView>,
    pub pts_ms: Option<i64>,
    pub duration: Duration,
    pub clear_screen: bool,
    pub plane_width: int,
    pub plane_height: int,
    pub builtin_sound: Option<u8>,
}

impl Caption {
    pub open spec fn view(&self) -> CaptionView {
        CaptionView {
            kind: self.kind,
            language: self.language,
            text: self.text@,
            regions: regions_view(self.regions@),
            drcs: drcs_map_view(self.drcs@),
            pts_ms: self.pts_ms,
            duration: self.duration,
            clear_screen: self.clear_screen,
            plane_width: self.plane_width as int,
            plane_height: self.plane_height as int,
            builtin_sound: self.builtin_sound,
        }
    }

    /// True when this caption carries nothing to show — a bare clear-screen,
    /// or management data with no statement.
    pub fn is_empty(&self) -> (e: bool)
        ensures
            e == (self.regions@.len() == 0),
    {
        self.regions.len() == 0
    }

    /// The language code as a string. An ASCII code — which every ISO 639-2
    /// code is — comes out character for character.
    pub fn language_str(&self) -> (s: String)
        ensures
            s@ == code_text(self.language),
    {
        lossy_utf8(&self.language)
    }
}

impl Default for Caption {
    fn default() -> (c: Caption)
        ensures
            c.kind == CaptionKind::Caption,
            c.language@ == seq![0x6au8, 0x70u8, 0x6eu8],
            c.text@.len() == 0,
            c.regions@.len() == 0,
            c.drcs@.len() == 0,
            c.pts_ms is None,
            c.duration == Duration::Indefinite,
            !c.clear_screen,
            c.plane_width == 960,
            c.plane_height == 540,
            c.builtin_sound is None,
    {
        Caption {
            kind: CaptionKind::Caption,
            language: [0x6a, 0x70, 0x6e],
            text: String::new(),
            regions: Vec::new(),
            drcs: HashMap::new(),
            pts_ms: None,
            duration: Duration::Indefinite,
            clear_screen: false,
            plane_width: 960,
            plane_height: 540,
            builtin_sound: None,
        }
    }
}

} // verus!
