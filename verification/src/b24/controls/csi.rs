use vstd::prelude::*;

verus! {

/// Character deformation.
pub const GSM: u8 = 0x42;
/// Set writing format.
pub const SWF: u8 = 0x53;
/// Composite character composition.
pub const CCC: u8 = 0x54;
/// Set display format.
pub const SDF: u8 = 0x56;
/// Character composition dot designation.
pub const SSM: u8 = 0x57;
/// Set horizontal spacing.
pub const SHS: u8 = 0x58;
/// Set vertical spacing.
pub const SVS: u8 = 0x59;
/// Partially line down.
pub const PLD: u8 = 0x5b;
/// Partially line up.
pub const PLU: u8 = 0x5c;
/// Colouring block.
pub const GAA: u8 = 0x5d;
/// Raster colour designation.
pub const SRC: u8 = 0x5e;
/// Set display position.
pub const SDP: u8 = 0x5f;
/// Active coordinate position set.
pub const ACPS: u8 = 0x61;
/// Switch control.
pub const TCC: u8 = 0x62;
/// Ornament control (the stroke).
pub const ORN: u8 = 0x63;
/// Font (bold / italic).
pub const MDF: u8 = 0x64;
/// Character font set.
pub const CFS: u8 = 0x65;
/// External character set.
pub const XCS: u8 = 0x66;
pub const SCR: u8 = 0x67;
/// Built-in sound replay.
pub const PRA: u8 = 0x68;
/// Alternative character set.
pub const ACS: u8 = 0x69;
/// Invisible embedded data control.
pub const UED: u8 = 0x6a;
/// Raster colour command.
pub const RCS: u8 = 0x6e;
/// Skip character set.
pub const SCS: u8 = 0x6f;

} // verus!
