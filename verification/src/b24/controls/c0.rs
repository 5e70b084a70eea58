use vstd::prelude::*;

verus! {

pub const NUL: u8 = 0x00;
pub const BEL: u8 = 0x07;
/// Active position backward.
pub const APB: u8 = 0x08;
/// Active position forward.
pub const APF: u8 = 0x09;
/// Active position down.
pub const APD: u8 = 0x0a;
/// Active position up.
pub const APU: u8 = 0x0b;
/// Clear screen.
pub const CS: u8 = 0x0c;
/// Active position return (newline).
pub const APR: u8 = 0x0d;
/// Locking shift 1.
pub const LS1: u8 = 0x0e;
/// Locking shift 0.
pub const LS0: u8 = 0x0f;
/// Parameterized active position forward.
pub const PAPF: u8 = 0x16;
pub const CAN: u8 = 0x18;
/// Single shift 2.
pub const SS2: u8 = 0x19;
pub const ESC: u8 = 0x1b;
/// Active position set.
pub const APS: u8 = 0x1c;
/// Single shift 3.
pub const SS3: u8 = 0x1d;
pub const RS: u8 = 0x1e;
pub const US: u8 = 0x1f;
pub const SP: u8 = 0x20;

} // verus!
