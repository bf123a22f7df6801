//! OpenType text shaping.
//!
//! A run of Unicode text, a font and a list of typographic features go in;
//! a run of positioned glyphs comes out. The pipeline resolves the segment
//! properties of the text, assigns a bit range of the per-glyph mask to each
//! feature, schedules the font's lookups into stages, normalizes the text
//! against the font's coverage, applies substitution and positioning stage by
//! stage and finally lays the glyphs out along the resolved direction.
#![allow(non_camel_case_types)]

pub mod tag;
pub mod common;
pub mod unicode;
pub mod buffer;
pub mod face;
pub mod map;
pub mod scan;
pub mod substitute;
pub mod complex;
pub mod plan;
pub mod normalize;
pub mod position;
pub mod shape;
pub mod laws;

pub use crate::buffer::{BufferClusterLevel, GlyphBuffer, GlyphInfo, GlyphPosition, UnicodeBuffer};
pub use crate::common::{Direction, Feature, Language, Script};
pub use crate::shape::shape;
pub use crate::tag::Tag;
