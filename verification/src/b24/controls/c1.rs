use vstd::prelude::*;

verus! {

pub const DEL: u8 = 0x7f;
/// Foreground colour, black through white.
pub const BKF: u8 = 0x80;
pub const RDF: u8 = 0x81;
pub const GRF: u8 = 0x82;
pub const YLF: u8 = 0x83;
pub const BLF: u8 = 0x84;
pub const MGF: u8 = 0x85;
pub const CNF: u8 = 0x86;
pub const WHF: u8 = 0x87;
/// Small size.
pub const SSZ: u8 = 0x88;
/// Middle size.
pub const MSZ: u8 = 0x89;
/// Normal size.
pub const NSZ: u8 = 0x8a;
/// Parameterized size.
pub const SZX: u8 = 0x8b;
/// Colour controls.
pub const COL: u8 = 0x90;
/// Flashing control.
pub const FLC: u8 = 0x91;
/// Conceal display controls.
pub const CDC: u8 = 0x92;
/// Pattern polarity controls.
pub const POL: u8 = 0x93;
/// Foreground/background memory-write modification.
pub const WMM: u8 = 0x94;
pub const MACRO: u8 = 0x95;
/// Highlighting character block (the enclosure).
pub const HLC: u8 = 0x97;
/// Repeat character.
pub const RPC: u8 = 0x98;
/// Stop lining (underline).
pub const SPL: u8 = 0x99;
/// Start lining (underline).
pub const STL: u8 = 0x9a;
/// Control sequence introducer.
pub const CSI: u8 = 0x9b;
/// Time controls.
pub const TIME: u8 = 0x9d;

} // verus!
