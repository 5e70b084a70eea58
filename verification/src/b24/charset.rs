//! Code point → character, for every graphic set a caption can designate.
//!
//! The kanji plane is the one set that is *not* tabulated here. Rows 1-83 of
//! the ARIB kanji set are JIS X 0208, so they come out of `encoding_rs`'s
//! EUC-JP decoder by mapping (ku, ten) onto the two-byte form, and JIS X 0213
//! plane 2 onto the three-byte form. Rows 84 and up are the ARIB additional
//! symbols, which no standard encoding knows, and those are in
//! [`super::tables`].
use vstd::prelude::*;
use vstd::utf8::is_scalar;

use super::codesets::GraphicSet;
use super::tables::{
    additional_symbol_pua, additional_symbol_unicode, alphanumeric_fullwidth,
    alphanumeric_halfwidth, hiragana, jis_x0201_katakana, jis_x0201_katakana_halfwidth,
    kana_symbol_halfwidth, kanji_symbol_halfwidth, katakana, latin_extension,
    spec_additional_symbol_pua, spec_additional_symbol_unicode, spec_alphanumeric_fullwidth,
    spec_alphanumeric_halfwidth, spec_hiragana, spec_jis_x0201_katakana,
    spec_jis_x0201_katakana_halfwidth, spec_kana_symbol_halfwidth, spec_kanji_symbol_halfwidth,
    spec_katakana, spec_latin_extension,
};
use crate::text::{char_from_u32, chars_of, string_of_char};

verus! {

/// The character a slot resolves to, plus its Private Use Area alias when the
/// symbol has one.
#[derive(Clone, Debug, PartialEq, Eq)]
pub struct Resolved {
    pub text: String,
    pub pua: Option<char>,
}

/// GETA MARK — what a slot with no mapping shows, matching every other ARIB
/// decoder's convention.
pub const GETA: char = '\u{3013}';

/// Size flags that decide the halfwidth substitutions.
#[derive(Clone, Copy, Debug)]
pub struct SizeContext {
    /// True under MSZ (half width, full height), which is where a fullwidth
    /// glyph would look wrong in a text rendering.
    pub is_msz: bool,
    pub replace_msz_ascii: bool,
    pub replace_msz_japanese: bool,
}

impl SizeContext {
    pub open spec fn spec_ascii(&self) -> bool {
        self.is_msz && self.replace_msz_ascii
    }

    pub open spec fn spec_japanese(&self) -> bool {
        self.is_msz && self.replace_msz_japanese
    }

    /// Whether ASCII comes out halfwidth.
    pub fn ascii(&self) -> (b: bool)
        ensures
            b == self.spec_ascii(),
    {
        self.is_msz && self.replace_msz_ascii
    }

    /// Whether Japanese punctuation and kana come out halfwidth.
    pub fn japanese(&self) -> (b: bool)
        ensures
            b == self.spec_japanese(),
    {
        self.is_msz && self.replace_msz_japanese
    }
}

/// The character a table entry names: none for an undefined slot, which the
/// tables spell as 0 or U+FFFD, nor for a value that is not a scalar.
pub open spec fn spec_mapped(cp: u32) -> Option<char> {
    if cp == 0 || cp == 0xfffd || !is_scalar(cp) {
        None
    } else {
        Some(cp as char)
    }
}

/// The character a table entry shows: GETA where nothing is mapped.
pub open spec fn char_or_geta(cp: u32) -> char {
    match spec_mapped(cp) {
        Some(c) => c,
        None => GETA,
    }
}

/// An undefined slot. The mapping tables spell one of these two ways — a zero,
/// or U+FFFD — and both mean the same thing: nothing is mapped here. GETA is
/// what goes on screen instead, since a replacement character reads as a
/// decoding failure when the truth is that the standard leaves the slot empty.
pub fn mapped(cp: u32) -> (c: Option<char>)
    ensures
        c == spec_mapped(cp),
{
    if cp == 0 || cp == 0xfffd {
        return None;
    }
    char_from_u32(cp)
}

/// The slot a table gives `cp` for, as shown text.
pub fn from_table(cp: u32) -> (r: Resolved)
    ensures
        r.text@ == seq![char_or_geta(cp)],
        r.pua is None,
{
    let c = match mapped(cp) {
        Some(c) => c,
        None => GETA,
    };
    Resolved { text: string_of_char(c), pua: None }
}

/// The table entry a one-byte set gives `code`, or `None` for a set with no
/// text form.
pub open spec fn spec_single_cp(set: GraphicSet, code: u8, size: SizeContext) -> Option<u32> {
    let index = code - 0x21;
    match set {
        GraphicSet::Hiragana | GraphicSet::ProportionalHiragana => Some(
            if code >= 0x79 && size.spec_japanese() {
                spec_kana_symbol_halfwidth(code - 0x79)
            } else {
                spec_hiragana(index)
            },
        ),
        GraphicSet::Katakana | GraphicSet::ProportionalKatakana => Some(
            if code >= 0x79 && size.spec_japanese() {
                spec_kana_symbol_halfwidth(code - 0x79)
            } else {
                spec_katakana(index)
            },
        ),
        GraphicSet::JisX0201Katakana => Some(
            if size.spec_japanese() {
                spec_jis_x0201_katakana_halfwidth(index)
            } else {
                spec_jis_x0201_katakana(index)
            },
        ),
        GraphicSet::Alphanumeric | GraphicSet::ProportionalAlphanumeric => Some(
            if size.spec_ascii() {
                spec_alphanumeric_halfwidth(index)
            } else {
                spec_alphanumeric_fullwidth(index)
            },
        ),
        GraphicSet::LatinExtension => Some(spec_latin_extension(index)),
        // The Latin special set's repertoire is not tabulated: every slot
        // shows GETA.
        GraphicSet::LatinSpecial => Some(0),
        _ => None,
    }
}

/// The character a one-byte set's `code` resolves to, or `None` for a set
/// with no text form.
pub open spec fn spec_resolve_single(set: GraphicSet, code: u8, size: SizeContext) -> Option<
    char,
> {
    match spec_single_cp(set, code, size) {
        Some(cp) => Some(char_or_geta(cp)),
        None => None,
    }
}

/// Resolve a one-byte set's character. `code` is the 0x21..0x7E byte.
pub fn resolve_single(set: GraphicSet, code: u8, size: SizeContext) -> (r: Option<Resolved>)
    requires
        0x21 <= code <= 0x7e,
    ensures
        match (r, spec_resolve_single(set, code, size)) {
            (Some(res), Some(c)) => res.text@ == seq![c] && res.pua is None,
            (None, None) => true,
            _ => false,
        },
{
    let index = code - 0x21;
    let cp = match set {
        GraphicSet::Hiragana | GraphicSet::ProportionalHiragana => {
            // 0x79.. are the punctuation shared with katakana, which have real
            // halfwidth forms.
            if code >= 0x79 && size.japanese() {
                kana_symbol_halfwidth(code - 0x79)
            } else {
                hiragana(index)
            }
        },
        GraphicSet::Katakana | GraphicSet::ProportionalKatakana => {
            if code >= 0x79 && size.japanese() {
                kana_symbol_halfwidth(code - 0x79)
            } else {
                katakana(index)
            }
        },
        GraphicSet::JisX0201Katakana => {
            if size.japanese() {
                jis_x0201_katakana_halfwidth(index)
            } else {
                jis_x0201_katakana(index)
            }
        },
        GraphicSet::Alphanumeric | GraphicSet::ProportionalAlphanumeric => {
            if size.ascii() {
                alphanumeric_halfwidth(index)
            } else {
                alphanumeric_fullwidth(index)
            }
        },
        GraphicSet::LatinExtension => latin_extension(index),
        GraphicSet::LatinSpecial => 0,
        // Mosaic sets are block graphics for data broadcasting; captions do not
        // use them and there is nothing sensible to put in a text stream.
        _ => return None,
    };
    Some(from_table(cp))
}

/// What `encoding_rs`'s EUC-JP decoder makes of `bytes`: the text, and whether
/// it met a malformed sequence.
pub uninterp spec fn euc_jp_decoding(bytes: Seq<u8>) -> (Seq<char>, bool);

/// `encoding_rs::EUC_JP.decode`, which decodes the bytes whole, replacing a
/// malformed sequence with U+FFFD and reporting that it did. The result is
/// named, not stated: it is the EUC-JP mapping tables. (The call sniffs for a
/// byte-order mark first; the two- and three-byte sequences this library
/// hands it never start with one. It panics only when the size of its output
/// buffer overflows, which a few bytes cannot make it do.)
#[verifier::external_body]
fn euc_jp_decode(bytes: &[u8]) -> (r: (String, bool))
    requires
        bytes@.len() <= 3,
    ensures
        (r.0@, r.1) == euc_jp_decoding(bytes@),
{
    let (text, _, had_error) = encoding_rs::EUC_JP.decode(bytes);
    (text.into_owned(), had_error)
}

/// The character a decoding stands for: its first character, or GETA for a
/// failed decoding, an empty one, or a replacement character.
pub open spec fn spec_first_or_geta(text: Seq<char>, had_error: bool) -> char {
    if had_error || text.len() == 0 || text[0] == '\u{fffd}' {
        GETA
    } else {
        text[0]
    }
}

/// The character a decoded kanji-plane cell shows.
pub fn first_or_geta(text: &str, had_error: bool) -> (c: char)
    ensures
        c == spec_first_or_geta(text@, had_error),
{
    if had_error {
        return GETA;
    }
    let chars = chars_of(text);
    if chars.len() == 0 || chars[0] == '\u{fffd}' {
        GETA
    } else {
        chars[0]
    }
}

/// The character EUC-JP gives `bytes`.
pub open spec fn spec_euc_jp_char(bytes: Seq<u8>) -> char {
    spec_first_or_geta(euc_jp_decoding(bytes).0, euc_jp_decoding(bytes).1)
}

pub open spec fn plane1_bytes(ku: u32, ten: u32) -> Seq<u8> {
    seq![(ku + 0xa1) as u8, (ten + 0xa1) as u8]
}

pub open spec fn plane2_bytes(ku: u32, ten: u32) -> Seq<u8> {
    seq![0x8fu8, (ku + 0xa1) as u8, (ten + 0xa1) as u8]
}

fn decode_euc_jp(bytes: &[u8]) -> (r: Resolved)
    requires
        bytes@.len() <= 3,
    ensures
        r.text@ == seq![spec_euc_jp_char(bytes@)],
        r.pua is None,
{
    let (text, had_error) = euc_jp_decode(bytes);
    let c = first_or_geta(text.as_str(), had_error);
    Resolved { text: string_of_char(c), pua: None }
}

/// JIS plane 1 (ku, ten) through EUC-JP's two-byte form.
fn euc_jp_plane1(ku: u32, ten: u32) -> (r: Resolved)
    requires
        ku + 0xa1 <= u32::MAX,
        ten + 0xa1 <= u32::MAX,
    ensures
        r.text@ == seq![spec_euc_jp_char(plane1_bytes(ku, ten))],
        r.pua is None,
{
    let bytes = [(ku + 0xa1) as u8, (ten + 0xa1) as u8];
    assert(bytes@ =~= plane1_bytes(ku, ten));
    decode_euc_jp(&bytes)
}

/// JIS plane 2 (ku, ten) through EUC-JP's three-byte form (SS3 prefix).
fn euc_jp_plane2(ku: u32, ten: u32) -> (r: Resolved)
    requires
        ku + 0xa1 <= u32::MAX,
        ten + 0xa1 <= u32::MAX,
    ensures
        r.text@ == seq![spec_euc_jp_char(plane2_bytes(ku, ten))],
        r.pua is None,
{
    let bytes = [0x8f, (ku + 0xa1) as u8, (ten + 0xa1) as u8];
    assert(bytes@ =~= plane2_bytes(ku, ten));
    decode_euc_jp(&bytes)
}

/// An additional symbol: its character, and its Private Use Area alias when
/// that says something the character does not.
pub open spec fn spec_additional_symbol(row: u32, ten: u32) -> (char, Option<char>) {
    let index = row * 94 + ten;
    let ucs = spec_additional_symbol_unicode(index / 94, index % 94);
    let pua = spec_additional_symbol_pua(index / 94, index % 94);
    (
        char_or_geta(ucs),
        if pua == ucs || !(0xe000 <= pua <= 0xf8ff) {
            None
        } else {
            Some(pua as char)
        },
    )
}

fn additional_symbol(row: u32, ten: u32) -> (r: Resolved)
    requires
        row * 94 + ten <= u32::MAX,
    ensures
        r.text@ == seq![spec_additional_symbol(row, ten).0],
        r.pua == spec_additional_symbol(row, ten).1,
{
    // The tables run on from one row into the next.
    let index = row * 94 + ten;
    let ucs = additional_symbol_unicode(index / 94, index % 94);
    let pua = additional_symbol_pua(index / 94, index % 94);
    // A PUA code equal to the character itself, or outside the BMP private
    // area, carries no extra information.
    let pua = if pua == ucs || !(0xe000 <= pua && pua <= 0xf8ff) {
        None
    } else {
        char_from_u32(pua)
    };
    let c = match mapped(ucs) {
        Some(c) => c,
        None => GETA,
    };
    Resolved { text: string_of_char(c), pua }
}

/// The first kanji row of the ARIB additional symbols, counted from 0.
pub const GAIJI_BEGIN_KU: u32 = 84;

/// A fullwidth form that has an exact halfwidth counterpart a fixed offset
/// away: the ideographic space and fullwidth ASCII.
pub open spec fn has_ascii_counterpart(c: char) -> bool {
    c as u32 == 0x3000 || 0xff01 <= c as u32 <= 0xff5e
}

/// The halfwidth counterpart of a fullwidth form.
pub open spec fn ascii_counterpart(c: char) -> char {
    (((c as u32) & 0xffu32) + 0x20) as char
}

/// The character a two-byte set's (ku, ten) resolves to, and its PUA alias.
pub open spec fn spec_resolve_double(set: GraphicSet, ku: u32, ten: u32, size: SizeContext) -> (
    char,
    Option<char>,
) {
    match set {
        GraphicSet::JisX0213Kanji2 => (spec_euc_jp_char(plane2_bytes(ku, ten)), None),
        GraphicSet::Kanji | GraphicSet::JisX0213Kanji1 | GraphicSet::AdditionalSymbols => {
            if ku >= GAIJI_BEGIN_KU {
                spec_additional_symbol((ku - GAIJI_BEGIN_KU) as u32, ten)
            } else if ku < 2 && size.spec_japanese() {
                let index = ku * 94 + ten;
                (
                    char_or_geta(
                        match spec_kanji_symbol_halfwidth(index / 94, index % 94) {
                            Some(cp) => cp,
                            None => 0,
                        },
                    ),
                    None,
                )
            } else {
                let c = spec_euc_jp_char(plane1_bytes(ku, ten));
                if size.spec_ascii() && has_ascii_counterpart(c) {
                    (ascii_counterpart(c), None)
                } else {
                    (c, None)
                }
            }
        },
        _ => (GETA, None),
    }
}

/// The sums resolving (ku, ten) makes — a table index, or the bytes of the
/// EUC-JP form — stay within a `u32`. They do for every cell of the 94 x 94
/// plane.
pub open spec fn double_fits(set: GraphicSet, ku: u32, ten: u32, size: SizeContext) -> bool {
    match set {
        GraphicSet::JisX0213Kanji2 => ku + 0xa1 <= u32::MAX && ten + 0xa1 <= u32::MAX,
        GraphicSet::Kanji | GraphicSet::JisX0213Kanji1 | GraphicSet::AdditionalSymbols => {
            if ku >= GAIJI_BEGIN_KU {
                (ku - GAIJI_BEGIN_KU) * 94 + ten <= u32::MAX
            } else if ku < 2 && size.spec_japanese() {
                ku * 94 + ten <= u32::MAX
            } else {
                ten + 0xa1 <= u32::MAX
            }
        },
        _ => true,
    }
}

/// Resolve a two-byte set's character from its (ku, ten) pair, both 0-based.
pub fn resolve_double(set: GraphicSet, ku: u32, ten: u32, size: SizeContext) -> (r: Resolved)
    requires
        double_fits(set, ku, ten, size),
    ensures
        r.text@ == seq![spec_resolve_double(set, ku, ten, size).0],
        r.pua == spec_resolve_double(set, ku, ten, size).1,
{
    match set {
        GraphicSet::JisX0213Kanji2 => euc_jp_plane2(ku, ten),
        GraphicSet::Kanji | GraphicSet::JisX0213Kanji1 | GraphicSet::AdditionalSymbols => {
            if ku >= GAIJI_BEGIN_KU {
                return additional_symbol(ku - GAIJI_BEGIN_KU, ten);
            }
            // Rows 1-2 are punctuation and fullwidth forms; under MSZ those get
            // halfwidth substitutes so a text rendering is not full of
            // double-width commas.
            if ku < 2 && size.japanese() {
                let index = ku * 94 + ten;
                return from_table(
                    match kanji_symbol_halfwidth(index / 94, index % 94) {
                        Some(cp) => cp,
                        None => 0,
                    },
                );
            }
            let resolved = euc_jp_plane1(ku, ten);
            if size.ascii() {
                let chars = chars_of(resolved.text.as_str());
                let c = chars[0];
                let cp = c as u32;
                // Ideographic space and fullwidth ASCII have exact
                // halfwidth counterparts a fixed offset away.
                if cp == 0x3000 || (0xff01 <= cp && cp <= 0xff5e) {
                    let low = cp & 0xff;
                    assert(low < 0x100) by (bit_vector)
                        requires
                            low == cp & 0xff,
                    ;
                    if let Some(half) = char_from_u32(low + 0x20) {
                        return Resolved { text: string_of_char(half), pua: None };
                    }
                }
            }
            resolved
        },
        _ => Resolved { text: string_of_char(GETA), pua: None },
    }
}

/// Under MSZ with halfwidth ASCII, a kanji-plane cell that EUC-JP reads as a
/// fullwidth ASCII form U+FF01..U+FF5E comes out as the ASCII character
/// U+FEE0 below it, and the ideographic space as a space; any other character
/// comes out as EUC-JP reads it. (Cells of the first two rows go through the
/// halfwidth punctuation table instead when Japanese is made halfwidth too.)
pub proof fn law_msz_makes_fullwidth_ascii_halfwidth(
    set: GraphicSet,
    ku: u32,
    ten: u32,
    size: SizeContext,
)
    requires
        set == GraphicSet::Kanji || set == GraphicSet::JisX0213Kanji1 || set
            == GraphicSet::AdditionalSymbols,
        ku < GAIJI_BEGIN_KU,
        !(ku < 2 && size.spec_japanese()),
        size.spec_ascii(),
    ensures
        ({
            let c = spec_euc_jp_char(plane1_bytes(ku, ten)) as u32;
            let r = spec_resolve_double(set, ku, ten, size);
            &&& r.1 is None
            &&& 0xff01 <= c <= 0xff5e ==> r.0 as u32 == c - 0xfee0
            &&& c == 0x3000 ==> r.0 == ' '
            &&& !(0xff01 <= c <= 0xff5e || c == 0x3000) ==> r.0 as u32 == c
        }),
{
    let c = spec_euc_jp_char(plane1_bytes(ku, ten)) as u32;
    if 0xff01 <= c <= 0xff5e {
        assert(c & 0xff == c - 0xff00) by (bit_vector)
            requires
                0xff01 <= c <= 0xff5e,
        ;
    }
    if c == 0x3000 {
        assert(c & 0xff == 0) by (bit_vector)
            requires
                c == 0x3000,
        ;
    }
}

/// The alphanumeric set is ASCII: each code is its ASCII character when
/// ASCII is halfwidth, and the fullwidth form U+FEE0 above it otherwise —
/// except that 0x5C is the yen sign (U+A5, fullwidth U+FFE5) and 0x7E the
/// overline (U+203E, fullwidth U+FFE3), as in JIS X 0201.
pub proof fn law_alphanumeric_is_ascii(set: GraphicSet, code: u8, size: SizeContext)
    requires
        set == GraphicSet::Alphanumeric || set == GraphicSet::ProportionalAlphanumeric,
        0x21 <= code <= 0x7e,
    ensures
        spec_resolve_single(set, code, size) matches Some(c) && c as int == (if code == 0x5c {
            if size.spec_ascii() {
                0xa5int
            } else {
                0xffe5
            }
        } else if code == 0x7e {
            if size.spec_ascii() {
                0x203e
            } else {
                0xffe3
            }
        } else if size.spec_ascii() {
            code as int
        } else {
            code as int + 0xfee0
        }),
{
}

/// The kana sets run in Unicode order: the hiragana codes 0x21..0x73 are
/// U+3041..U+3093 and the katakana codes 0x21..0x76 are U+30A1..U+30F6, each
/// as many places on as the code is past 0x21.
pub proof fn law_kana_run_in_unicode_order(set: GraphicSet, code: u8, size: SizeContext)
    requires
        0x21 <= code,
        (set == GraphicSet::Hiragana || set == GraphicSet::ProportionalHiragana) && code <= 0x73
            || (set == GraphicSet::Katakana || set == GraphicSet::ProportionalKatakana) && code
            <= 0x76,
    ensures
        spec_resolve_single(set, code, size) matches Some(c) && c as int == (if set
            == GraphicSet::Hiragana || set == GraphicSet::ProportionalHiragana {
            0x3041int
        } else {
            0x30a1int
        }) + (code - 0x21),
{
}

} // verus!
