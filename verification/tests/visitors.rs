use glyphrev::tables::{
    AlternateSubstitution, Constructions, Coverage, Lookup, MathVariants, SingleSubstitution,
    SubstitutionSubtable,
};

#[test]
fn single_substitution_by_delta() {
    let sub = SingleSubstitution::Format1 { coverage: Coverage { glyphs: vec![5] }, delta: 3 };
    assert_eq!(sub.visit_glyph(5), vec![8]);
    assert_eq!(sub.visit_glyph(8), Vec::<u16>::new());
}

#[test]
fn single_substitution_delta_wraps_in_glyph_space() {
    let sub = SingleSubstitution::Format1 {
        coverage: Coverage { glyphs: vec![2, 65535] },
        delta: -5,
    };
    assert_eq!(sub.visit_glyph(2), vec![65533]);
    let up = SingleSubstitution::Format1 { coverage: Coverage { glyphs: vec![65535] }, delta: 3 };
    assert_eq!(up.visit_glyph(65535), vec![2]);
}

#[test]
fn single_substitution_by_table() {
    let sub = SingleSubstitution::Format2 {
        coverage: Coverage { glyphs: vec![5, 1, 2, 3, 4, 6] },
        substitutes: vec![12],
    };
    assert_eq!(sub.visit_glyph(5), vec![12]);
    // coverage(6) = 5, which has no substitute entry: tolerated, empty.
    assert_eq!(sub.visit_glyph(6), Vec::<u16>::new());
    // uncovered glyph: empty.
    assert_eq!(sub.visit_glyph(7), Vec::<u16>::new());
}

#[test]
fn alternate_substitution_produces_whole_set_in_order() {
    let sub = AlternateSubstitution {
        coverage: Coverage { glyphs: vec![5] },
        alternate_sets: vec![vec![20, 30]],
    };
    assert_eq!(sub.visit_glyph(5), vec![20, 30]);
    assert_eq!(sub.visit_glyph(6), Vec::<u16>::new());
}

#[test]
fn lookup_concatenates_subtables_and_skips_other() {
    let lookup = Lookup {
        subtables: vec![
            SubstitutionSubtable::Other,
            SubstitutionSubtable::Single(SingleSubstitution::Format1 {
                coverage: Coverage { glyphs: vec![5] },
                delta: 3,
            }),
            SubstitutionSubtable::Alternate(AlternateSubstitution {
                coverage: Coverage { glyphs: vec![5] },
                alternate_sets: vec![vec![20, 30]],
            }),
        ],
    };
    assert_eq!(lookup.visit_glyph(5), vec![8, 20, 30]);
    assert_eq!(lookup.visit_glyph(9), Vec::<u16>::new());
}

#[test]
fn math_variants_horizontal_then_vertical_no_dedup() {
    let mv = MathVariants {
        horizontal_constructions: Constructions {
            coverage: Coverage { glyphs: vec![7] },
            variants: vec![vec![9, 10]],
        },
        vertical_constructions: Constructions {
            coverage: Coverage { glyphs: vec![7] },
            variants: vec![vec![11]],
        },
    };
    assert_eq!(mv.visit_glyph(7), vec![9, 10, 11]);
    assert_eq!(mv.visit_glyph(8), Vec::<u16>::new());
}

#[test]
fn math_variants_tolerate_absent_sides() {
    let mv = MathVariants {
        horizontal_constructions: Constructions {
            coverage: Coverage { glyphs: vec![] },
            variants: vec![],
        },
        vertical_constructions: Constructions {
            coverage: Coverage { glyphs: vec![7] },
            variants: vec![vec![11, 11]],
        },
    };
    // no horizontal list, duplicated vertical entries kept.
    assert_eq!(mv.visit_glyph(7), vec![11, 11]);
}
