//! Generative steganographic glyphs: a short message is encoded as a radial
//! path (a spiral or a fingerprint-like maze). This crate holds the verified
//! core: the symbol encoder, message normalisation, and the integer plans of
//! both path shapes.

pub mod encoder;
pub mod sections;
pub mod fingerprint;
pub mod text;
pub mod spiral;
pub mod radial;
pub mod error;
pub mod palette;
pub mod glyph;
