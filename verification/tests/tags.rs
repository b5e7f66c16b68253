use glyphrev::Variant;
use glyphrev::get_tag_variant;

#[test]
fn ssty_is_supported() {
    assert_eq!(get_tag_variant(b"ssty"), Some(Variant::Ssty));
}

#[test]
fn character_variants_in_range() {
    assert_eq!(get_tag_variant(b"cv01"), Some(Variant::CharacterVariant(1)));
    assert_eq!(get_tag_variant(b"cv03"), Some(Variant::CharacterVariant(3)));
    assert_eq!(get_tag_variant(b"cv10"), Some(Variant::CharacterVariant(10)));
    assert_eq!(get_tag_variant(b"cv99"), Some(Variant::CharacterVariant(99)));
}

#[test]
fn stylistic_sets_in_range() {
    assert_eq!(get_tag_variant(b"ss01"), Some(Variant::StylisticSet(1)));
    assert_eq!(get_tag_variant(b"ss07"), Some(Variant::StylisticSet(7)));
    assert_eq!(get_tag_variant(b"ss20"), Some(Variant::StylisticSet(20)));
}

#[test]
fn out_of_range_and_malformed_tags_are_unsupported() {
    assert_eq!(get_tag_variant(b"cv00"), None);
    assert_eq!(get_tag_variant(b"ss00"), None);
    assert_eq!(get_tag_variant(b"ss21"), None);
    assert_eq!(get_tag_variant(b"ss99"), None);
    assert_eq!(get_tag_variant(b"cvv0"), None);
    assert_eq!(get_tag_variant(b"cvx1"), None);
    assert_eq!(get_tag_variant(b"ssx1"), None);
    assert_eq!(get_tag_variant(b"abcd"), None);
    assert_eq!(get_tag_variant(b"liga"), None);
    assert_eq!(get_tag_variant(b"sstz"), None);
}
