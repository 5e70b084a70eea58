//! The code point each slot of a one-byte graphic set, and of the additional
//! symbol rows of the kanji plane, stands for.
//!
//! Each table is indexed from 0 for the first graphic byte (0x21) and gives
//! 0 for a slot the standard leaves empty. The sets whose repertoire runs in
//! code point order are written as arithmetic; the rest as explicit lists.
use vstd::prelude::*;

verus! {

/// Punctuation shared by the hiragana and katakana sets, bytes 0x79..0x7E:
/// ー。「」、・
pub open spec fn kana_punctuation(i: int) -> u32 {
    if i == 88 {
        0x30fc
    } else if i == 89 {
        0x3002
    } else if i == 90 {
        0x300c
    } else if i == 91 {
        0x300d
    } else if i == 92 {
        0x3001
    } else if i == 93 {
        0x30fb
    } else {
        0
    }
}

/// The hiragana set: ぁ..ん, three empty slots, ゝゞ, then the shared
/// punctuation.
pub open spec fn spec_hiragana(i: int) -> u32 {
    if 0 <= i <= 82 {
        (0x3041 + i) as u32
    } else if i == 86 {
        0x309d
    } else if i == 87 {
        0x309e
    } else {
        kana_punctuation(i)
    }
}

/// The katakana set: ァ..ヶ, ヽヾ, then the shared punctuation.
pub open spec fn spec_katakana(i: int) -> u32 {
    if 0 <= i <= 85 {
        (0x30a1 + i) as u32
    } else if i == 86 {
        0x30fd
    } else if i == 87 {
        0x30fe
    } else {
        kana_punctuation(i)
    }
}

/// Halfwidth forms of the shared kana punctuation, indexed from byte 0x79.
pub open spec fn spec_kana_symbol_halfwidth(j: int) -> u32 {
    if j == 0 {
        0xff70
    } else if j == 1 {
        0xff61
    } else if j == 2 {
        0xff62
    } else if j == 3 {
        0xff63
    } else if j == 4 {
        0xff64
    } else if j == 5 {
        0xff65
    } else {
        0
    }
}

/// The alphanumeric set in its fullwidth forms; the yen sign and overline
/// take the places of backslash and tilde.
pub open spec fn spec_alphanumeric_fullwidth(i: int) -> u32 {
    if i == 0x3b {
        0xffe5
    } else if i == 0x5d {
        0xffe3
    } else if 0 <= i <= 93 {
        (0xff01 + i) as u32
    } else {
        0
    }
}

/// The alphanumeric set in its halfwidth (ASCII) forms.
pub open spec fn spec_alphanumeric_halfwidth(i: int) -> u32 {
    if i == 0x3b {
        0xa5
    } else if i == 0x5d {
        0x203e
    } else if 0 <= i <= 93 {
        (0x21 + i) as u32
    } else {
        0
    }
}

/// JIS X 0201 katakana in the halfwidth forms Unicode gives them.
pub open spec fn spec_jis_x0201_katakana_halfwidth(i: int) -> u32 {
    if 0 <= i <= 62 {
        (0xff61 + i) as u32
    } else {
        0
    }
}

/// JIS X 0201 katakana in fullwidth forms:
/// 。「」、・ヲァィゥェォャュョッーアイウエオカキクケコサシスセソタチツテト
/// ナニヌネノハヒフヘホマミムメモヤユヨラリルレロワン゛゜
pub open spec fn spec_jis_x0201_katakana(i: int) -> u32 {
    if i == 0 {
        0x3002
    } else if i == 1 {
        0x300c
    } else if i == 2 {
        0x300d
    } else if i == 3 {
        0x3001
    } else if i == 4 {
        0x30fb
    } else if i == 5 {
        0x30f2
    } else if 6 <= i <= 10 {
        (0x30a1 + 2 * (i - 6)) as u32
    } else if 11 <= i <= 13 {
        (0x30e3 + 2 * (i - 11)) as u32
    } else if i == 14 {
        0x30c3
    } else if i == 15 {
        0x30fc
    } else if 16 <= i <= 20 {
        (0x30a2 + 2 * (i - 16)) as u32
    } else if 21 <= i <= 32 {
        (0x30ab + 2 * (i - 21)) as u32
    } else if 33 <= i <= 35 {
        (0x30c4 + 2 * (i - 33)) as u32
    } else if 36 <= i <= 40 {
        (0x30ca + (i - 36)) as u32
    } else if 41 <= i <= 45 {
        (0x30cf + 3 * (i - 41)) as u32
    } else if 46 <= i <= 50 {
        (0x30de + (i - 46)) as u32
    } else if 51 <= i <= 53 {
        (0x30e4 + 2 * (i - 51)) as u32
    } else if 54 <= i <= 58 {
        (0x30e9 + (i - 54)) as u32
    } else if i == 59 {
        0x30ef
    } else if i == 60 {
        0x30f3
    } else if i == 61 {
        0x309b
    } else if i == 62 {
        0x309c
    } else {
        0
    }
}

/// The Latin extension set: the upper half of ISO 8859-1, ¡ through þ.
pub open spec fn spec_latin_extension(i: int) -> u32 {
    if 0 <= i <= 93 {
        (0xa1 + i) as u32
    } else {
        0
    }
}

/// Halfwidth forms of the punctuation in the first row of the kanji plane
/// (、。・゛゜ー「」), by (ku, ten) counted from 0; `None` where the first two
/// rows have no halfwidth counterpart, which under MSZ shows as GETA.
pub open spec fn spec_kanji_symbol_halfwidth(ku: int, ten: int) -> Option<u32> {
    if ku != 0 {
        None
    } else if ten == 1 {
        Some(0xff64)
    } else if ten == 2 {
        Some(0xff61)
    } else if ten == 5 {
        Some(0xff65)
    } else if ten == 10 {
        Some(0xff9e)
    } else if ten == 11 {
        Some(0xff9f)
    } else if ten == 27 {
        Some(0xff70)
    } else if ten == 53 {
        Some(0xff62)
    } else if ten == 54 {
        Some(0xff63)
    } else {
        None
    }
}

/// Row 90 of the kanji plane (the broadcast symbols), by ten counted from 0.
pub open spec fn spec_symbols_row90(ten: int) -> u32 {
    if ten == 0 {
        0x26cc
    } else if ten == 1 {
        0x26cd
    } else if ten == 2 {
        0x2757
    } else if 3 <= ten <= 5 {
        (0x26cf + (ten - 3)) as u32
    } else if ten == 7 {
        0x26d2
    } else if ten == 8 {
        0x26d5
    } else if ten == 9 {
        0x26d3
    } else if ten == 10 {
        0x26d4
    } else if ten == 15 {
        0x1f17f
    } else if ten == 16 {
        0x1f18a
    } else if 19 <= ten <= 30 {
        (0x26d6 + (ten - 19)) as u32
    } else if ten == 31 {
        0x2b55
    } else if 32 <= ten <= 39 {
        (0x3248 + (ten - 32)) as u32
    } else if 44 <= ten <= 46 {
        (0x2491 + (ten - 44)) as u32
    } else if ten == 47 {
        0x1f14a
    } else if ten == 48 {
        0x1f14c
    } else if ten == 49 {
        0x1f13f
    } else if ten == 50 {
        0x1f146
    } else if ten == 51 {
        0x1f14b
    } else if 52 <= ten <= 55 {
        (0x1f210 + (ten - 52)) as u32
    } else if ten == 56 {
        0x1f142
    } else if 57 <= ten <= 59 {
        (0x1f214 + (ten - 57)) as u32
    } else if ten == 60 {
        0x1f14d
    } else if ten == 61 {
        0x1f131
    } else if ten == 62 {
        0x1f13d
    } else if ten == 63 {
        0x2b1b
    } else if ten == 64 {
        0x2b24
    } else if 65 <= ten <= 69 {
        (0x1f217 + (ten - 65)) as u32
    } else if ten == 70 {
        0x26bf
    } else if 71 <= ten <= 80 {
        (0x1f21c + (ten - 71)) as u32
    } else if ten == 81 {
        0x1f14e
    } else if ten == 82 {
        0x3299
    } else if ten == 83 {
        0x1f200
    } else {
        0
    }
}

/// Row 92 of the kanji plane (arrows, date and unit symbols), by ten
/// counted from 0.
pub open spec fn spec_symbols_row92(ten: int) -> u32 {
    if ten == 0 {
        0x27a1
    } else if 1 <= ten <= 3 {
        (0x2b05 + (ten - 1)) as u32
    } else if ten == 4 {
        0x2b2f
    } else if ten == 5 {
        0x2b2e
    } else if ten == 6 {
        0x5e74
    } else if ten == 7 {
        0x6708
    } else if ten == 8 {
        0x65e5
    } else if ten == 9 {
        0x5186
    } else if ten == 10 {
        0x33a1
    } else if ten == 11 {
        0x33a5
    } else if ten == 12 {
        0x339d
    } else if ten == 13 {
        0x33a0
    } else if ten == 14 {
        0x33a4
    } else if ten == 15 {
        0x1f100
    } else if 16 <= ten <= 24 {
        (0x2488 + (ten - 16)) as u32
    } else {
        0
    }
}

/// Row 93 of the additional symbols, as far as this table carries it: the
/// double exclamation-question mark at column 79.
pub open spec fn spec_symbols_row93(ten: int) -> u32 {
    if ten == 78 {
        0x2049
    } else {
        0
    }
}

/// The additional symbol at (row, ten), rows counted from kanji row 85.
pub open spec fn spec_additional_symbol_unicode(row: int, ten: int) -> u32 {
    if ten < 0 || ten >= 94 {
        0
    } else if row == 5 {
        spec_symbols_row90(ten)
    } else if row == 7 {
        spec_symbols_row92(ten)
    } else if row == 8 {
        spec_symbols_row93(ten)
    } else {
        0
    }
}

/// The Private Use Area code the ARIB symbol fonts give an additional symbol:
/// row 90 column 1 at U+E0F8, counting on through rows 91..94.
pub open spec fn spec_additional_symbol_pua(row: int, ten: int) -> u32 {
    if 5 <= row <= 9 && 0 <= ten < 94 && spec_additional_symbol_unicode(row, ten) != 0 {
        (0xe0f8 + (row - 5) * 94 + ten) as u32
    } else {
        0
    }
}

pub fn hiragana(i: u8) -> (cp: u32)
    ensures
        cp == spec_hiragana(i as int),
{
    if i <= 82 {
        0x3041 + i as u32
    } else if i == 86 {
        0x309d
    } else if i == 87 {
        0x309e
    } else {
        kana_punctuation_at(i)
    }
}

fn kana_punctuation_at(i: u8) -> (cp: u32)
    ensures
        cp == kana_punctuation(i as int),
{
    match i {
        88 => 0x30fc,
        89 => 0x3002,
        90 => 0x300c,
        91 => 0x300d,
        92 => 0x3001,
        93 => 0x30fb,
        _ => 0,
    }
}

pub fn katakana(i: u8) -> (cp: u32)
    ensures
        cp == spec_katakana(i as int),
{
    if i <= 85 {
        0x30a1 + i as u32
    } else if i == 86 {
        0x30fd
    } else if i == 87 {
        0x30fe
    } else {
        kana_punctuation_at(i)
    }
}

pub fn kana_symbol_halfwidth(j: u8) -> (cp: u32)
    ensures
        cp == spec_kana_symbol_halfwidth(j as int),
{
    match j {
        0 => 0xff70,
        1 => 0xff61,
        2 => 0xff62,
        3 => 0xff63,
        4 => 0xff64,
        5 => 0xff65,
        _ => 0,
    }
}

pub fn alphanumeric_fullwidth(i: u8) -> (cp: u32)
    ensures
        cp == spec_alphanumeric_fullwidth(i as int),
{
    if i == 0x3b {
        0xffe5
    } else if i == 0x5d {
        0xffe3
    } else if i <= 93 {
        0xff01 + i as u32
    } else {
        0
    }
}

pub fn alphanumeric_halfwidth(i: u8) -> (cp: u32)
    ensures
        cp == spec_alphanumeric_halfwidth(i as int),
{
    if i == 0x3b {
        0xa5
    } else if i == 0x5d {
        0x203e
    } else if i <= 93 {
        0x21 + i as u32
    } else {
        0
    }
}

pub fn jis_x0201_katakana_halfwidth(i: u8) -> (cp: u32)
    ensures
        cp == spec_jis_x0201_katakana_halfwidth(i as int),
{
    if i <= 62 {
        0xff61 + i as u32
    } else {
        0
    }
}

pub fn jis_x0201_katakana(i: u8) -> (cp: u32)
    ensures
        cp == spec_jis_x0201_katakana(i as int),
{
    let k = i as u32;
    if i == 0 {
        0x3002
    } else if i == 1 {
        0x300c
    } else if i == 2 {
        0x300d
    } else if i == 3 {
        0x3001
    } else if i == 4 {
        0x30fb
    } else if i == 5 {
        0x30f2
    } else if i <= 10 {
        0x30a1 + 2 * (k - 6)
    } else if i <= 13 {
        0x30e3 + 2 * (k - 11)
    } else if i == 14 {
        0x30c3
    } else if i == 15 {
        0x30fc
    } else if i <= 20 {
        0x30a2 + 2 * (k - 16)
    } else if i <= 32 {
        0x30ab + 2 * (k - 21)
    } else if i <= 35 {
        0x30c4 + 2 * (k - 33)
    } else if i <= 40 {
        0x30ca + (k - 36)
    } else if i <= 45 {
        0x30cf + 3 * (k - 41)
    } else if i <= 50 {
        0x30de + (k - 46)
    } else if i <= 53 {
        0x30e4 + 2 * (k - 51)
    } else if i <= 58 {
        0x30e9 + (k - 54)
    } else if i == 59 {
        0x30ef
    } else if i == 60 {
        0x30f3
    } else if i == 61 {
        0x309b
    } else if i == 62 {
        0x309c
    } else {
        0
    }
}

pub fn latin_extension(i: u8) -> (cp: u32)
    ensures
        cp == spec_latin_extension(i as int),
{
    if i <= 93 {
        0xa1 + i as u32
    } else {
        0
    }
}

pub fn kanji_symbol_halfwidth(ku: u32, ten: u32) -> (cp: Option<u32>)
    ensures
        cp == spec_kanji_symbol_halfwidth(ku as int, ten as int),
{
    if ku != 0 {
        return None;
    }
    match ten {
        1 => Some(0xff64),
        2 => Some(0xff61),
        5 => Some(0xff65),
        10 => Some(0xff9e),
        11 => Some(0xff9f),
        27 => Some(0xff70),
        53 => Some(0xff62),
        54 => Some(0xff63),
        _ => None,
    }
}

fn symbols_row90(ten: u32) -> (cp: u32)
    ensures
        cp == spec_symbols_row90(ten as int),
{
    if ten == 0 {
        0x26cc
    } else if ten == 1 {
        0x26cd
    } else if ten == 2 {
        0x2757
    } else if ten <= 5 {
        0x26cf + (ten - 3)
    } else if ten == 7 {
        0x26d2
    } else if ten == 8 {
        0x26d5
    } else if ten == 9 {
        0x26d3
    } else if ten == 10 {
        0x26d4
    } else if ten == 15 {
        0x1f17f
    } else if ten == 16 {
        0x1f18a
    } else if 19 <= ten && ten <= 30 {
        0x26d6 + (ten - 19)
    } else if ten == 31 {
        0x2b55
    } else if 32 <= ten && ten <= 39 {
        0x3248 + (ten - 32)
    } else if 44 <= ten && ten <= 46 {
        0x2491 + (ten - 44)
    } else if ten == 47 {
        0x1f14a
    } else if ten == 48 {
        0x1f14c
    } else if ten == 49 {
        0x1f13f
    } else if ten == 50 {
        0x1f146
    } else if ten == 51 {
        0x1f14b
    } else if 52 <= ten && ten <= 55 {
        0x1f210 + (ten - 52)
    } else if ten == 56 {
        0x1f142
    } else if 57 <= ten && ten <= 59 {
        0x1f214 + (ten - 57)
    } else if ten == 60 {
        0x1f14d
    } else if ten == 61 {
        0x1f131
    } else if ten == 62 {
        0x1f13d
    } else if ten == 63 {
        0x2b1b
    } else if ten == 64 {
        0x2b24
    } else if 65 <= ten && ten <= 69 {
        0x1f217 + (ten - 65)
    } else if ten == 70 {
        0x26bf
    } else if 71 <= ten && ten <= 80 {
        0x1f21c + (ten - 71)
    } else if ten == 81 {
        0x1f14e
    } else if ten == 82 {
        0x3299
    } else if ten == 83 {
        0x1f200
    } else {
        0
    }
}

fn symbols_row92(ten: u32) -> (cp: u32)
    ensures
        cp == spec_symbols_row92(ten as int),
{
    if ten == 0 {
        0x27a1
    } else if ten <= 3 {
        0x2b05 + (ten - 1)
    } else if ten == 4 {
        0x2b2f
    } else if ten == 5 {
        0x2b2e
    } else if ten == 6 {
        0x5e74
    } else if ten == 7 {
        0x6708
    } else if ten == 8 {
        0x65e5
    } else if ten == 9 {
        0x5186
    } else if ten == 10 {
        0x33a1
    } else if ten == 11 {
        0x33a5
    } else if ten == 12 {
        0x339d
    } else if ten == 13 {
        0x33a0
    } else if ten == 14 {
        0x33a4
    } else if ten == 15 {
        0x1f100
    } else if ten <= 24 {
        0x2488 + (ten - 16)
    } else {
        0
    }
}

fn symbols_row93(ten: u32) -> (cp: u32)
    ensures
        cp == spec_symbols_row93(ten as int),
{
    if ten == 78 {
        0x2049
    } else {
        0
    }
}

pub fn additional_symbol_unicode(row: u32, ten: u32) -> (cp: u32)
    ensures
        cp == spec_additional_symbol_unicode(row as int, ten as int),
{
    if ten >= 94 {
        0
    } else if row == 5 {
        symbols_row90(ten)
    } else if row == 7 {
        symbols_row92(ten)
    } else if row == 8 {
        symbols_row93(ten)
    } else {
        0
    }
}

pub fn additional_symbol_pua(row: u32, ten: u32) -> (cp: u32)
    ensures
        cp == spec_additional_symbol_pua(row as int, ten as int),
{
    if 5 <= row && row <= 9 && ten < 94 && additional_symbol_unicode(row, ten) != 0 {
        0xe0f8 + (row - 5) * 94 + ten
    } else {
        0
    }
}

} // verus!
