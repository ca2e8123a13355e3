use runebender::point::{EntityId, IdCounter};
use runebender::selection::Selection;

#[test]
fn insert_remove_contains() {
    let mut ids = IdCounter::new();
    let a = EntityId::next(&mut ids);
    let b = EntityId::next(&mut ids);
    let mut sel = Selection::new();
    assert!(sel.is_empty());
    assert!(sel.insert(a));
    assert!(!sel.insert(a));
    assert!(sel.insert(b));
    assert_eq!(sel.len(), 2);
    assert!(sel.contains(&a));
    assert!(sel.remove(&a));
    assert!(!sel.remove(&a));
    assert!(!sel.contains(&a));
    sel.select_one(a);
    assert_eq!(sel.iter(), vec![a]);
    sel.clear();
    assert!(sel.is_empty());
}

#[test]
fn set_operations() {
    let mut ids = IdCounter::new();
    let a = EntityId::next(&mut ids);
    let b = EntityId::next(&mut ids);
    let c = EntityId::next(&mut ids);
    let one = Selection::from_ids(&[a, b]);
    let two = Selection::from_ids(&[b, c]);
    assert_eq!(one.union(&two).iter(), vec![a, b, c]);
    assert_eq!(one.symmetric_difference(&two).iter(), vec![a, c]);
}

#[test]
fn per_path_groups() {
    let mut ids = IdCounter::new();
    let p1 = EntityId::next(&mut ids);
    let p2 = EntityId::next(&mut ids);
    let a1 = EntityId::new_with_parent(&mut ids, p1);
    let b1 = EntityId::new_with_parent(&mut ids, p2);
    let a2 = EntityId::new_with_parent(&mut ids, p1);
    let mut sel = Selection::new();
    sel.extend(&[b1, a2, a1]);
    let per_path = sel.per_path_selection();
    assert_eq!(per_path.path_len(), 2);
    let mut it = per_path.iter();
    assert_eq!(it.next(), Some(vec![a1, a2]));
    assert_eq!(it.next(), Some(vec![b1]));
    assert_eq!(it.next(), None);
}

#[test]
fn ids_and_parents() {
    let mut ids = IdCounter::new();
    let path = EntityId::next(&mut ids);
    let point = EntityId::new_with_parent(&mut ids, path);
    let guide = EntityId::new_for_guide(&mut ids);
    assert!(point.is_child_of(path));
    assert!(!path.is_child_of(point));
    assert_eq!(point.parent(), path);
    assert!(guide.is_guide());
    assert!(!point.is_guide());
    assert!(point.parent_eq(EntityId::new_with_parent(&mut ids, path)));
    assert_ne!(point, EntityId::new_with_parent(&mut ids, path));
}
