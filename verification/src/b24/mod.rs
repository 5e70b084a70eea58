//! The B24 coded character set: graphic sets, control codes, and the
//! conversion of their code points to Unicode.
pub mod charset;
pub mod codesets;
pub mod controls;
pub mod macros;
pub mod tables;
