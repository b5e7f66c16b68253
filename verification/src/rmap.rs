//! The reverse glyph map: the inverse index from a produced glyph id
//! back to the (base codepoint, applied variant) pair that produced it.

use vstd::prelude::*;
use std::collections::HashMap;
use crate::variant::Variant;

verus! {

broadcast use vstd::std_specs::hash::group_hash_axioms;

/// A collection for obtaining the usv's from glyphs: one instance per
/// loaded font, populated by the loaders during the preprocessing pass
/// and read-only afterwards. Keys are glyph ids; a later insert for the
/// same glyph replaces the earlier entry.
#[derive(Debug)]
pub struct ReverseGlyphMap {
    inner: HashMap<u16, (char, Variant)>,
}

impl View for ReverseGlyphMap {
    type V = Map<u16, (char, Variant)>;

    closed spec fn view(&self) -> Map<u16, (char, Variant)> {
        self.inner@
    }
}

impl Default for ReverseGlyphMap {
    /// An empty map.
    fn default() -> (r: Self)
        ensures
            r@ == Map::<u16, (char, Variant)>::empty(),
    {
        ReverseGlyphMap { inner: HashMap::new() }
    }
}

impl ReverseGlyphMap {
    /// An empty map.
    pub fn new() -> (r: Self)
        ensures
            r@ == Map::<u16, (char, Variant)>::empty(),
    {
        Self::default()
    }

    /// The (codepoint, variant) recorded for `glyph`, if any.
    pub fn query_usv(&self, glyph: u16) -> (r: Option<(char, Variant)>)
        ensures
            r == if self@.contains_key(glyph) {
                Some(self@[glyph])
            } else {
                None::<(char, Variant)>
            },
    {
        match self.inner.get(&glyph) {
            Some(p) => Some(*p),
            None => None,
        }
    }

    /// Record `usv` for `glyph`, replacing and returning any earlier
    /// entry: the last insert for a glyph wins.
    pub fn insert(&mut self, usv: (char, Variant), glyph: u16) -> (r: Option<(char, Variant)>)
        ensures
            final(self)@ == old(self)@.insert(glyph, usv),
            r == if old(self)@.contains_key(glyph) {
                Some(old(self)@[glyph])
            } else {
                None::<(char, Variant)>
            },
    {
        self.inner.insert(glyph, usv)
    }

    /// The count of distinct glyph keys.
    pub fn len(&self) -> (r: usize)
        ensures
            r == self@.len(),
    {
        self.inner.len()
    }
}

} // verus!
