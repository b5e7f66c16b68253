use glyphrev::ReverseGlyphMap;
use glyphrev::Variant;

#[test]
fn query_on_empty_map_is_none() {
    let map = ReverseGlyphMap::new();
    assert_eq!(map.len(), 0);
    assert_eq!(map.query_usv(20), None);
}

#[test]
fn insert_then_query() {
    let mut map = ReverseGlyphMap::new();
    assert_eq!(map.insert(('a', Variant::Ssty), 20), None);
    assert_eq!(map.query_usv(20), Some(('a', Variant::Ssty)));
    assert_eq!(map.len(), 1);
}

#[test]
fn collision_last_write_wins() {
    let mut map = ReverseGlyphMap::new();
    assert_eq!(map.insert(('a', Variant::Ssty), 20), None);
    assert_eq!(map.insert(('b', Variant::Math), 20), Some(('a', Variant::Ssty)));
    assert_eq!(map.query_usv(20), Some(('b', Variant::Math)));
    assert_eq!(map.len(), 1);
}

#[test]
fn distinct_keys_each_count() {
    let mut map = ReverseGlyphMap::new();
    map.insert(('a', Variant::Direct), 1);
    map.insert(('b', Variant::Direct), 2);
    map.insert(('c', Variant::StylisticSet(4)), 3);
    assert_eq!(map.len(), 3);
    assert_eq!(map.query_usv(3), Some(('c', Variant::StylisticSet(4))));
    assert_eq!(map.query_usv(4), None);
}
