use gpui2::{EntityId, EntityMap, TypeTag, Violation};

const NUMBER: TypeTag = TypeTag(7);
const TEXT: TypeTag = TypeTag(8);

#[test]
fn identifiers_are_issued_in_order() {
    let mut store: EntityMap<i64> = EntityMap::new();
    let first = store.reserve(NUMBER);
    let second = store.reserve(TEXT);
    assert_eq!(first.entity_id(), EntityId(0));
    assert_eq!(second.entity_id(), EntityId(1));
    assert_eq!(first.entity_type(), NUMBER);
    assert_eq!(second.entity_type(), TEXT);
    assert!(store.can_reserve());
}

#[test]
fn a_reserved_entity_is_live_but_absent() {
    let mut store: EntityMap<i64> = EntityMap::new();
    let slot = store.reserve(NUMBER);
    let id = slot.entity_id();
    assert!(store.is_live(id));
    assert!(!store.is_present(id));
    assert_eq!(store.strong_count(id), 1);
    let handle = store.insert(slot, 41).unwrap();
    assert!(store.is_present(id));
    assert_eq!(store.strong_count(id), 1);
    assert_eq!(store.read(&handle), Ok(&41));
}

#[test]
fn a_slot_is_present_while_a_strong_handle_exists() {
    let mut store: EntityMap<i64> = EntityMap::new();
    let slot = store.reserve(NUMBER);
    let first = store.insert(slot, 5).unwrap();
    let id = first.entity_id();
    let weak = first.downgrade();
    let second = store.upgrade(&weak).expect("the entity is live");
    assert_eq!(store.strong_count(id), 2);
    assert_eq!(store.release(first), Ok(None));
    assert!(store.is_live(id));
    assert_eq!(store.strong_count(id), 1);
    assert_eq!(store.release(second), Ok(Some(5)));
    assert!(!store.is_live(id));
    assert_eq!(store.strong_count(id), 0);
}

#[test]
fn upgrade_fails_exactly_after_the_last_release() {
    let mut store: EntityMap<i64> = EntityMap::new();
    let slot = store.reserve(NUMBER);
    let handle = store.insert(slot, 5).unwrap();
    let weak = handle.downgrade();
    let again = store.upgrade(&weak);
    assert!(again.is_some());
    store.release(again.unwrap()).unwrap();
    assert!(store.upgrade(&weak).map(|h| store.release(h)).is_some());
    store.release(handle).unwrap();
    assert!(store.upgrade(&weak).is_none());
    let other = store.reserve(NUMBER);
    assert_eq!(other.entity_id(), EntityId(1));
    assert!(store.upgrade(&weak).is_none());
}

#[test]
fn a_weak_handle_can_be_made_for_any_identifier() {
    let mut store: EntityMap<i64> = EntityMap::new();
    let weak = store.weak_handle(EntityId(99), NUMBER);
    assert_eq!(weak.id, EntityId(99));
    assert_eq!(weak.type_tag, NUMBER);
    assert!(store.upgrade(&weak).is_none());
}

#[test]
fn a_second_lease_of_the_same_entity_is_refused() {
    let mut store: EntityMap<i64> = EntityMap::new();
    let slot = store.reserve(NUMBER);
    let handle = store.insert(slot, 5).unwrap();
    let id = handle.entity_id();
    let mut lease = store.lease(&handle).unwrap();
    assert!(!store.is_present(id));
    assert!(store.is_live(id));
    assert_eq!(store.lease(&handle).err(), Some(Violation::Absent));
    assert_eq!(store.read(&handle), Err(Violation::Absent));
    assert_eq!(store.strong_count(id), 1);
    *lease.entity_mut() += 1;
    assert_eq!(*lease.entity(), 6);
    assert_eq!(lease.entity_id(), id);
    assert_eq!(lease.entity_type(), NUMBER);
    assert_eq!(store.end_lease(lease), Ok(()));
    assert_eq!(store.read(&handle), Ok(&6));
    assert!(store.lease(&handle).is_ok());
}

#[test]
fn a_lease_of_a_released_entity_is_refused() {
    let mut store: EntityMap<i64> = EntityMap::new();
    let slot = store.reserve(NUMBER);
    let handle = store.insert(slot, 5).unwrap();
    let weak = handle.downgrade();
    let extra = store.upgrade(&weak).unwrap();
    store.release(handle).unwrap();
    let lease = store.lease(&extra).unwrap();
    assert_eq!(store.release(extra).err(), Some(Violation::Absent));
    assert!(store.is_live(weak.id));
    store.end_lease(lease).unwrap();
    let stale = store.upgrade(&weak).unwrap();
    assert_eq!(store.strong_count(weak.id), 2);
    store.release(stale).unwrap();
}

#[test]
fn a_handle_of_the_wrong_type_is_refused() {
    let mut store: EntityMap<i64> = EntityMap::new();
    let slot = store.reserve(NUMBER);
    let handle = store.insert(slot, 5).unwrap();
    let wrong = store.upgrade(&store.weak_handle(handle.entity_id(), TEXT)).unwrap();
    assert_eq!(store.lease(&wrong).err(), Some(Violation::TypeMismatch));
    assert_eq!(store.read(&wrong), Err(Violation::TypeMismatch));
    assert_eq!(store.release(wrong).err(), Some(Violation::TypeMismatch));
    assert_eq!(store.strong_count(handle.entity_id()), 2);
    assert_eq!(store.read(&handle), Ok(&5));
}

#[test]
fn a_lease_cannot_be_ended_twice() {
    let mut store: EntityMap<i64> = EntityMap::new();
    let slot = store.reserve(NUMBER);
    let handle = store.insert(slot, 5).unwrap();
    let first = store.lease(&handle).unwrap();
    store.end_lease(first).unwrap();
    let second = store.lease(&handle).unwrap();
    let weak = handle.downgrade();
    let extra = store.upgrade(&weak).unwrap();
    store.end_lease(second).unwrap();
    let third = store.lease(&extra).unwrap();
    store.end_lease(third).unwrap();
    store.release(extra).unwrap();
    assert_eq!(store.release(handle), Ok(Some(5)));
    assert_eq!(store.upgrade(&weak).is_none(), true);
}

#[test]
fn the_end_of_a_lease_on_a_present_slot_is_refused() {
    let mut a: EntityMap<i64> = EntityMap::new();
    let mut b: EntityMap<i64> = EntityMap::new();
    let slot_a = a.reserve(NUMBER);
    let handle_a = a.insert(slot_a, 1).unwrap();
    let slot_b = b.reserve(NUMBER);
    let _handle_b = b.insert(slot_b, 2).unwrap();
    let lease = a.lease(&handle_a).unwrap();
    assert_eq!(b.end_lease(lease), Err(Violation::NotLeased));
    assert_eq!(b.strong_count(EntityId(0)), 1);
}

#[test]
fn the_end_of_a_lease_on_a_missing_slot_is_refused() {
    let mut a: EntityMap<i64> = EntityMap::new();
    let mut b: EntityMap<i64> = EntityMap::new();
    let slot_a = a.reserve(NUMBER);
    let handle_a = a.insert(slot_a, 1).unwrap();
    let lease = a.lease(&handle_a).unwrap();
    assert_eq!(b.end_lease(lease), Err(Violation::Released));
    assert!(!b.can_reserve() || !b.is_live(EntityId(0)));
}

#[test]
fn a_value_is_stored_once_per_reservation() {
    let mut a: EntityMap<i64> = EntityMap::new();
    let mut b: EntityMap<i64> = EntityMap::new();
    let slot_a = a.reserve(NUMBER);
    let slot_b = b.reserve(NUMBER);
    let _held = b.insert(slot_b, 2).unwrap();
    assert_eq!(b.insert(slot_a, 3).err(), Some(Violation::NotReserved));
    let mut c: EntityMap<i64> = EntityMap::new();
    let slot_c = a.reserve(TEXT);
    assert_eq!(c.insert(slot_c, 4).err(), Some(Violation::Released));
    let wrong = c.reserve(NUMBER);
    let mut d: EntityMap<i64> = EntityMap::new();
    let _text = d.reserve(TEXT);
    assert_eq!(d.insert(wrong, 4).err(), Some(Violation::TypeMismatch));
}
