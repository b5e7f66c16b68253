use glyphrev::ReverseGlyphMap;
use glyphrev::Variant;
use glyphrev::load::{load_gsub, load_math_variants};
use glyphrev::tables::{
    AlternateSubstitution, Constructions, Coverage, Feature, LayoutTable, Lookup, MathVariants,
    SingleSubstitution, SubstitutionSubtable,
};

fn delta_lookup(covered: Vec<u16>, delta: i16) -> Lookup {
    Lookup {
        subtables: vec![SubstitutionSubtable::Single(SingleSubstitution::Format1 {
            coverage: Coverage { glyphs: covered },
            delta,
        })],
    }
}

#[test]
fn end_to_end_supported_feature_is_recorded() {
    // codepoint 'a' maps to glyph 5; "cv03" remaps 5 to 8 by delta +3.
    let gsub = LayoutTable {
        features: vec![Feature { tag: *b"cv03", lookup_indices: vec![0] }],
        lookups: vec![delta_lookup(vec![5], 3)],
    };
    let mut map = ReverseGlyphMap::new();
    load_gsub(&mut map, &gsub, &[('a', 5)]);
    assert_eq!(map.query_usv(8), Some(('a', Variant::CharacterVariant(3))));
    assert_eq!(map.len(), 1);
}

#[test]
fn end_to_end_unsupported_feature_leaves_nothing() {
    // "xx01" covers glyph 5 and would map it to 9, but its tag is
    // unsupported: the whole feature is skipped.
    let gsub = LayoutTable {
        features: vec![Feature { tag: *b"xx01", lookup_indices: vec![0] }],
        lookups: vec![delta_lookup(vec![5], 4)],
    };
    let mut map = ReverseGlyphMap::new();
    load_gsub(&mut map, &gsub, &[('a', 5)]);
    assert_eq!(map.query_usv(9), None);
    assert_eq!(map.len(), 0);
}

#[test]
fn dangling_lookup_index_is_skipped() {
    let gsub = LayoutTable {
        features: vec![Feature { tag: *b"ss01", lookup_indices: vec![7] }],
        lookups: vec![delta_lookup(vec![5], 3)],
    };
    let mut map = ReverseGlyphMap::new();
    load_gsub(&mut map, &gsub, &[('a', 5)]);
    assert_eq!(map.len(), 0);
}

#[test]
fn unique_outputs_per_seed_give_len_n() {
    // three seeds, each producing exactly one distinct output glyph.
    let gsub = LayoutTable {
        features: vec![Feature { tag: *b"cv01", lookup_indices: vec![0] }],
        lookups: vec![delta_lookup(vec![1, 2, 3], 100)],
    };
    let mut map = ReverseGlyphMap::new();
    load_gsub(&mut map, &gsub, &[('a', 1), ('b', 2), ('c', 3)]);
    assert_eq!(map.len(), 3);
    assert_eq!(map.query_usv(101), Some(('a', Variant::CharacterVariant(1))));
    assert_eq!(map.query_usv(102), Some(('b', Variant::CharacterVariant(1))));
    assert_eq!(map.query_usv(103), Some(('c', Variant::CharacterVariant(1))));
}

#[test]
fn zero_seeds_give_len_zero() {
    let gsub = LayoutTable {
        features: vec![Feature { tag: *b"cv01", lookup_indices: vec![0] }],
        lookups: vec![delta_lookup(vec![1, 2, 3], 100)],
    };
    let mut map = ReverseGlyphMap::new();
    load_gsub(&mut map, &gsub, &[]);
    assert_eq!(map.len(), 0);
}

#[test]
fn later_feature_wins_collisions_in_table_order() {
    // both features produce glyph 8 from seed glyph 5; the later one in
    // the font's feature order determines the final entry.
    let gsub = LayoutTable {
        features: vec![
            Feature { tag: *b"cv01", lookup_indices: vec![0] },
            Feature { tag: *b"ss02", lookup_indices: vec![0] },
        ],
        lookups: vec![delta_lookup(vec![5], 3)],
    };
    let mut map = ReverseGlyphMap::new();
    load_gsub(&mut map, &gsub, &[('a', 5)]);
    assert_eq!(map.query_usv(8), Some(('a', Variant::StylisticSet(2))));
    assert_eq!(map.len(), 1);
}

#[test]
fn alternates_all_recorded() {
    let gsub = LayoutTable {
        features: vec![Feature { tag: *b"ssty", lookup_indices: vec![0] }],
        lookups: vec![Lookup {
            subtables: vec![SubstitutionSubtable::Alternate(AlternateSubstitution {
                coverage: Coverage { glyphs: vec![5] },
                alternate_sets: vec![vec![20, 30]],
            })],
        }],
    };
    let mut map = ReverseGlyphMap::new();
    load_gsub(&mut map, &gsub, &[('x', 5)]);
    assert_eq!(map.query_usv(20), Some(('x', Variant::Ssty)));
    assert_eq!(map.query_usv(30), Some(('x', Variant::Ssty)));
    assert_eq!(map.len(), 2);
}

#[test]
fn math_loader_records_variants_under_math() {
    let mv = MathVariants {
        horizontal_constructions: Constructions {
            coverage: Coverage { glyphs: vec![7] },
            variants: vec![vec![9, 10]],
        },
        vertical_constructions: Constructions {
            coverage: Coverage { glyphs: vec![7] },
            variants: vec![vec![11]],
        },
    };
    let mut map = ReverseGlyphMap::new();
    load_math_variants(&mut map, &mv, &[('s', 7)]);
    assert_eq!(map.query_usv(9), Some(('s', Variant::Math)));
    assert_eq!(map.query_usv(10), Some(('s', Variant::Math)));
    assert_eq!(map.query_usv(11), Some(('s', Variant::Math)));
    assert_eq!(map.len(), 3);
}

#[test]
fn math_and_gsub_share_one_map() {
    let gsub = LayoutTable {
        features: vec![Feature { tag: *b"ssty", lookup_indices: vec![0] }],
        lookups: vec![delta_lookup(vec![5], 3)],
    };
    let mv = MathVariants {
        horizontal_constructions: Constructions {
            coverage: Coverage { glyphs: vec![5] },
            variants: vec![vec![8]],
        },
        vertical_constructions: Constructions {
            coverage: Coverage { glyphs: vec![] },
            variants: vec![],
        },
    };
    let mut map = ReverseGlyphMap::new();
    load_gsub(&mut map, &gsub, &[('a', 5)]);
    load_math_variants(&mut map, &mv, &[('a', 5)]);
    // both loads touched glyph 8; the math load ran later and wins.
    assert_eq!(map.query_usv(8), Some(('a', Variant::Math)));
    assert_eq!(map.len(), 1);
}
