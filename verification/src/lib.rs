//! A decoder for ARIB STD-B24 — the standard governing closed captions on
//! Japanese digital TV — with the caption model and its renderers kept apart.
//!
//! ```text
//! TS ──► ts ──► pes::parse ──► decoder::Decoder ──► model::Caption
//!                                                        │
//!                                   render::vtt (live) ◄─┤
//!                              render::ass (recordings) ◄┤
//!                             render::json (elsewhere)  ◄┘
//! ```
pub mod b24;
pub mod cli;
pub mod decoder;
pub mod inspect;
mod bytes;
pub mod model;
pub mod pes;
pub mod render;
pub mod text;
pub mod ts;

pub use decoder::{DecodeError, Decoder, Options};
pub use model::{
    Caption, CaptionChar, CaptionKind, CaptionRegion, Drcs, Duration, Profile, Rgba, WritingMode,
};
