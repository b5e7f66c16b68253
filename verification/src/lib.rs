//! Reversal engine for glyph substitutions: given a font's substitution
//! tables (GSUB features and lookups, and the MATH variant constructions)
//! and a set of seed (codepoint, base glyph) pairs, it computes, for every
//! glyph those tables can produce, the base codepoint and the feature
//! variant that produced it. A small byte-buffer scanner used by the
//! bibliography tokenizer, and the builder of the feature-toggle style
//! sheet, live here as well.

pub mod variant;
pub mod tables;
pub mod rmap;
pub mod load;
pub mod scan;
pub mod css;

pub use variant::Variant;
pub use rmap::ReverseGlyphMap;
pub use variant::get_tag_variant;
