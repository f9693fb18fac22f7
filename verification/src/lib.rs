//! A minimal text console that renders characters into a linear,
//! byte-addressed framebuffer.
//!
//! The crate is split into four parts: [`pixel`] encodes a single grayscale
//! intensity into the byte pattern of a pixel format, [`glyph`] obtains
//! fixed-size character bitmaps from the font, [`model`] gives the
//! mathematical model of the console state and its transitions, and
//! [`writer`] holds the framebuffer writer that drives cursor movement,
//! line wrapping, scrolling and glyph blitting.

pub mod glyph;
pub mod model;
pub mod pixel;
pub mod writer;
