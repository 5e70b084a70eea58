//! Control code values (ARIB STD-B24 part 1, tables 7-14 and 7-15).

/// C0 set — cursor movement, shifts, and the escape.
pub mod c0;
/// C1 set — colour, size, styling, timing.
pub mod c1;
/// CSI final bytes.
pub mod csi;
/// Locking shifts that follow an ESC.
pub mod esc;
