//! The graphic sets a statement body can designate, and the escape-sequence
//! final bytes that select them (ARIB STD-B24 part 2, table 7-3).
use vstd::prelude::*;

verus! {

/// A character repertoire that can be designated into G0..G3.
#[derive(Clone, Copy, Debug, PartialEq, Eq, Structural)]
pub enum GraphicSet {
    Kanji,
    Alphanumeric,
    LatinExtension,
    LatinSpecial,
    Hiragana,
    Katakana,
    MosaicA,
    MosaicB,
    MosaicC,
    MosaicD,
    ProportionalAlphanumeric,
    ProportionalHiragana,
    ProportionalKatakana,
    JisX0201Katakana,
    JisX0213Kanji1,
    JisX0213Kanji2,
    AdditionalSymbols,
    /// DRCS set 0..15. Set 0 is two-byte, the rest are one-byte.
    Drcs(u8),
    Macro,
}

/// A designated set together with how many bytes one of its characters takes.
#[derive(Clone, Copy, Debug, PartialEq, Eq, Structural)]
pub struct Codeset {
    pub set: GraphicSet,
    pub bytes: u8,
}

impl Codeset {
    pub open spec fn spec_new(set: GraphicSet, bytes: u8) -> Codeset {
        Codeset { set, bytes }
    }

    /// A codeset is well formed when its character width is one or two bytes
    /// and a DRCS set number is below 16.
    pub open spec fn wf(self) -> bool {
        &&& (self.bytes == 1 || self.bytes == 2)
        &&& (self.set matches GraphicSet::Drcs(n) ==> n < 16)
    }

    fn new(set: GraphicSet, bytes: u8) -> (c: Codeset)
        ensures
            c == Codeset::spec_new(set, bytes),
    {
        Codeset { set, bytes }
    }
}

pub fn kanji() -> (c: Codeset)
    ensures
        c == Codeset::spec_new(GraphicSet::Kanji, 2),
{
    Codeset::new(GraphicSet::Kanji, 2)
}

pub fn alphanumeric() -> (c: Codeset)
    ensures
        c == Codeset::spec_new(GraphicSet::Alphanumeric, 1),
{
    Codeset::new(GraphicSet::Alphanumeric, 1)
}

pub fn hiragana() -> (c: Codeset)
    ensures
        c == Codeset::spec_new(GraphicSet::Hiragana, 1),
{
    Codeset::new(GraphicSet::Hiragana, 1)
}

pub fn katakana() -> (c: Codeset)
    ensures
        c == Codeset::spec_new(GraphicSet::Katakana, 1),
{
    Codeset::new(GraphicSet::Katakana, 1)
}

pub fn latin_extension() -> (c: Codeset)
    ensures
        c == Codeset::spec_new(GraphicSet::LatinExtension, 1),
{
    Codeset::new(GraphicSet::LatinExtension, 1)
}

pub fn latin_special() -> (c: Codeset)
    ensures
        c == Codeset::spec_new(GraphicSet::LatinSpecial, 1),
{
    Codeset::new(GraphicSet::LatinSpecial, 1)
}

pub fn macro_set() -> (c: Codeset)
    ensures
        c == Codeset::spec_new(GraphicSet::Macro, 1),
{
    Codeset::new(GraphicSet::Macro, 1)
}

/// DRCS-0 is the two-byte set.
pub fn drcs_0() -> (c: Codeset)
    ensures
        c == Codeset::spec_new(GraphicSet::Drcs(0), 2),
{
    Codeset::new(GraphicSet::Drcs(0), 2)
}

/// DRCS-1 is one byte.
pub fn drcs_1() -> (c: Codeset)
    ensures
        c == Codeset::spec_new(GraphicSet::Drcs(1), 1),
{
    Codeset::new(GraphicSet::Drcs(1), 1)
}

/// The graphic set an escape sequence's final byte designates (table 7-3).
pub open spec fn spec_g_set_by_final(f: u8) -> Option<Codeset> {
    if f == 0x42 {
        Some(Codeset::spec_new(GraphicSet::Kanji, 2))
    } else if f == 0x4a {
        Some(Codeset::spec_new(GraphicSet::Alphanumeric, 1))
    } else if f == 0x4b {
        Some(Codeset::spec_new(GraphicSet::LatinExtension, 1))
    } else if f == 0x4c {
        Some(Codeset::spec_new(GraphicSet::LatinSpecial, 1))
    } else if f == 0x30 {
        Some(Codeset::spec_new(GraphicSet::Hiragana, 1))
    } else if f == 0x31 {
        Some(Codeset::spec_new(GraphicSet::Katakana, 1))
    } else if f == 0x32 {
        Some(Codeset::spec_new(GraphicSet::MosaicA, 1))
    } else if f == 0x33 {
        Some(Codeset::spec_new(GraphicSet::MosaicB, 1))
    } else if f == 0x34 {
        Some(Codeset::spec_new(GraphicSet::MosaicC, 1))
    } else if f == 0x35 {
        Some(Codeset::spec_new(GraphicSet::MosaicD, 1))
    } else if f == 0x36 {
        Some(Codeset::spec_new(GraphicSet::ProportionalAlphanumeric, 1))
    } else if f == 0x37 {
        Some(Codeset::spec_new(GraphicSet::ProportionalHiragana, 1))
    } else if f == 0x38 {
        Some(Codeset::spec_new(GraphicSet::ProportionalKatakana, 1))
    } else if f == 0x49 {
        Some(Codeset::spec_new(GraphicSet::JisX0201Katakana, 1))
    } else if f == 0x39 {
        Some(Codeset::spec_new(GraphicSet::JisX0213Kanji1, 2))
    } else if f == 0x3a {
        Some(Codeset::spec_new(GraphicSet::JisX0213Kanji2, 2))
    } else if f == 0x3b {
        Some(Codeset::spec_new(GraphicSet::AdditionalSymbols, 2))
    } else {
        None
    }
}

/// The set a DRCS designation's final byte selects (`ESC 0x28 0x20 F`).
pub open spec fn spec_drcs_set_by_final(f: u8) -> Option<Codeset> {
    if f == 0x40 {
        Some(Codeset::spec_new(GraphicSet::Drcs(0), 2))
    } else if 0x41 <= f <= 0x4f {
        Some(Codeset::spec_new(GraphicSet::Drcs((f - 0x40) as u8), 1))
    } else if f == 0x70 {
        Some(Codeset::spec_new(GraphicSet::Macro, 1))
    } else {
        None
    }
}

/// Graphic set for an escape sequence's final byte, e.g. `ESC 0x24 0x42` → kanji.
pub fn g_set_by_final(f: u8) -> (r: Option<Codeset>)
    ensures
        r == spec_g_set_by_final(f),
        r matches Some(c) ==> c.wf(),
{
    match f {
        0x42 => Some(kanji()),
        0x4a => Some(alphanumeric()),
        0x4b => Some(latin_extension()),
        0x4c => Some(latin_special()),
        0x30 => Some(hiragana()),
        0x31 => Some(katakana()),
        0x32 => Some(Codeset::new(GraphicSet::MosaicA, 1)),
        0x33 => Some(Codeset::new(GraphicSet::MosaicB, 1)),
        0x34 => Some(Codeset::new(GraphicSet::MosaicC, 1)),
        0x35 => Some(Codeset::new(GraphicSet::MosaicD, 1)),
        0x36 => Some(Codeset::new(GraphicSet::ProportionalAlphanumeric, 1)),
        0x37 => Some(Codeset::new(GraphicSet::ProportionalHiragana, 1)),
        0x38 => Some(Codeset::new(GraphicSet::ProportionalKatakana, 1)),
        0x49 => Some(Codeset::new(GraphicSet::JisX0201Katakana, 1)),
        0x39 => Some(Codeset::new(GraphicSet::JisX0213Kanji1, 2)),
        0x3a => Some(Codeset::new(GraphicSet::JisX0213Kanji2, 2)),
        0x3b => Some(Codeset::new(GraphicSet::AdditionalSymbols, 2)),
        _ => None,
    }
}

/// Graphic set for a DRCS designation's final byte (`ESC 0x28 0x20 F`).
pub fn drcs_set_by_final(f: u8) -> (r: Option<Codeset>)
    ensures
        r == spec_drcs_set_by_final(f),
        r matches Some(c) ==> c.wf(),
{
    if f == 0x40 {
        Some(drcs_0())
    } else if 0x41 <= f && f <= 0x4f {
        Some(Codeset::new(GraphicSet::Drcs(f - 0x40), 1))
    } else if f == 0x70 {
        Some(macro_set())
    } else {
        None
    }
}

} // verus!
