use runebender::bez_cache::{BezCache, ComponentMap, PreCache, PRE_CACHE_SIZE};

fn s(x: &str) -> String {
    x.to_string()
}

#[test]
fn read_after_write_through_both_stores() {
    let mut cache: BezCache<u32> = BezCache::new();
    assert_eq!(cache.get("a"), None);
    // more entries than the pre-cache holds
    for i in 0..(PRE_CACHE_SIZE as u32 + 3) {
        cache.set(format!("g{}", i), i);
    }
    for i in 0..(PRE_CACHE_SIZE as u32 + 3) {
        assert_eq!(cache.get(&format!("g{}", i)), Some(&i));
    }
    cache.set(s("g2"), 100);
    assert_eq!(cache.get("g2"), Some(&100));
    assert_eq!(cache.get("g3"), Some(&3));
}

#[test]
fn invalidating_a_component() {
    let components = ComponentMap::new(&[
        (s("Aacute"), vec![s("A"), s("acute")]),
        (s("Agrave"), vec![s("A"), s("grave")]),
        (s("A"), vec![]),
    ]);
    assert_eq!(components.glyphs_containing_component("A"), &[s("Aacute"), s("Agrave")]);
    assert_eq!(components.glyphs_containing_component("acute"), &[s("Aacute")]);
    assert!(components.glyphs_containing_component("B").is_empty());

    let mut cache: BezCache<u32> = BezCache::new();
    cache.reset(components, vec![]);
    cache.set(s("A"), 1);
    cache.set(s("Aacute"), 2);
    cache.set(s("Agrave"), 3);
    cache.set(s("B"), 4);
    cache.invalidate("A");
    // the component itself stays; the glyphs using it go
    assert_eq!(cache.get("A"), Some(&1));
    assert_eq!(cache.get("Aacute"), None);
    assert_eq!(cache.get("Agrave"), None);
    assert_eq!(cache.get("B"), Some(&4));
    assert_eq!(cache.glyphs_containing_component("grave"), &[s("Agrave")]);
}

#[test]
fn pre_cache_fills_up() {
    let mut pre: PreCache<u8> = PreCache::new();
    for i in 0..PRE_CACHE_SIZE as u8 {
        assert!(pre.try_insert(format!("k{}", i), i).is_ok());
    }
    assert!(pre.is_full());
    assert_eq!(pre.try_insert(s("new"), 99), Err((s("new"), 99)));
    // an existing name can still be updated
    assert!(pre.try_insert(s("k0"), 50).is_ok());
    assert_eq!(pre.get("k0"), Some(&50));
    pre.remove("k3");
    assert_eq!(pre.get("k3"), None);
    assert!(!pre.is_full());
    let drained = pre.drain();
    assert_eq!(drained.len(), PRE_CACHE_SIZE - 1);
    assert_eq!(pre.get("k1"), None);
}

#[test]
fn reset_rebuilds_every_glyph() {
    let mut cache: BezCache<u32> = BezCache::new();
    cache.set(s("A"), 1);
    cache.set(s("B"), 2);
    // the pre-cache is dropped: what it alone held is gone
    cache.reset(ComponentMap::empty(), vec![(s("A"), 10), (s("C"), 30)]);
    assert_eq!(cache.get("A"), Some(&10));
    assert_eq!(cache.get("B"), None);
    assert_eq!(cache.get("C"), Some(&30));
    // a component rebuilt twice keeps its last value
    let components = ComponentMap::new(&[(s("Aacute"), vec![s("A"), s("acute")])]);
    cache.reset(components, vec![(s("A"), 11), (s("acute"), 12), (s("Aacute"), 13), (s("A"), 14)]);
    assert_eq!(cache.get("A"), Some(&14));
    assert_eq!(cache.get("Aacute"), Some(&13));
    assert_eq!(cache.glyphs_containing_component("acute"), &[s("Aacute")]);
}

#[test]
fn rebuild_invalidates_then_sets() {
    let components = ComponentMap::new(&[
        (s("Aacute"), vec![s("A"), s("acute")]),
        (s("Agrave"), vec![s("A"), s("grave")]),
    ]);
    let mut cache: BezCache<u32> = BezCache::new();
    cache.reset(components, vec![(s("A"), 1), (s("Aacute"), 2), (s("Agrave"), 3)]);
    cache.rebuild("A", vec![(s("A"), 5)]);
    assert_eq!(cache.get("A"), Some(&5));
    assert_eq!(cache.get("Aacute"), None);
    assert_eq!(cache.get("Agrave"), None);
    let mut other: BezCache<u32> = BezCache::new();
    other.set_all(vec![(s("x"), 1), (s("y"), 2), (s("x"), 3)]);
    assert_eq!(other.get("x"), Some(&3));
    assert_eq!(other.get("y"), Some(&2));
}
