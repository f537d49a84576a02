use rio_rs::object_placement::{
    placement_key_of, redis_object_key_of, redis_object_name, redis_server_key_of, ObjectPlacementItem,
    PlacementTable,
};
use rio_rs::service_object::ObjectId;

fn id(t: &str, i: &str) -> ObjectId {
    ObjectId::new(t.to_string(), i.to_string())
}

#[test]
fn update_then_lookup() {
    let mut table = PlacementTable::new();
    assert!(table.lookup(&id("test", "1")).is_none());
    table.update(ObjectPlacementItem::new(id("test", "1"), Some("0.0.0.0:80".to_string())));
    assert_eq!(table.lookup(&id("test", "1")), Some("0.0.0.0:80".to_string()));
    table.update(ObjectPlacementItem::new(id("test", "1"), Some("0.0.0.0:81".to_string())));
    assert_eq!(table.lookup(&id("test", "1")), Some("0.0.0.0:81".to_string()));
    table.update(ObjectPlacementItem::new(id("test", "1"), None));
    assert!(table.lookup(&id("test", "1")).is_none());
}

#[test]
fn clean_server_unassigns_its_objects_only() {
    let mut table = PlacementTable::new();
    table.update(ObjectPlacementItem::new(id("a", "1"), Some("s1".to_string())));
    table.update(ObjectPlacementItem::new(id("a", "2"), Some("s2".to_string())));
    table.update(ObjectPlacementItem::new(id("b", "1"), Some("s1".to_string())));
    table.clean_server("s1".to_string());
    assert!(table.lookup(&id("a", "1")).is_none());
    assert!(table.lookup(&id("b", "1")).is_none());
    assert_eq!(table.lookup(&id("a", "2")), Some("s2".to_string()));
}

#[test]
fn remove_one_object() {
    let mut table = PlacementTable::new();
    table.update(ObjectPlacementItem::new(id("a", "1"), Some("s1".to_string())));
    table.update(ObjectPlacementItem::new(id("a", "2"), Some("s1".to_string())));
    table.remove(&id("a", "1"));
    assert!(table.lookup(&id("a", "1")).is_none());
    assert_eq!(table.lookup(&id("a", "2")), Some("s1".to_string()));
}

#[test]
fn dotted_keys_collide_as_in_a_flat_map() {
    let mut table = PlacementTable::new();
    table.update(ObjectPlacementItem::new(id("a.b", "c"), Some("s1".to_string())));
    assert_eq!(placement_key_of(&id("a", "b.c")), "a.b.c");
    assert_eq!(table.lookup(&id("a", "b.c")), Some("s1".to_string()));
}

#[test]
fn redis_keys() {
    assert_eq!(redis_object_name(&id("Svc", "7")), "Svc:7");
    assert_eq!(redis_object_key_of("pre/", &id("Svc", "7")), "pre/Svc:7");
    assert_eq!(redis_server_key_of("pre/", "1.1.1.1:80"), "pre/1.1.1.1:80");
}
