use gpui2::{AppContext, Effect, Handle, Handler, ModelContext, Relation, TypeTag, Violation};

const MODEL: TypeTag = TypeTag(1);
const OTHER: TypeTag = TypeTag(2);

type App = AppContext<i64, &'static str>;

fn create(app: &mut App, type_tag: TypeTag, value: i64) -> Handle {
    let slot = app.reserve(type_tag);
    app.insert(slot, value).unwrap()
}

#[test]
fn the_last_release_removes_the_slot_and_queues_the_release() {
    let mut app = App::new();
    let handle = create(&mut app, MODEL, 12);
    let id = handle.entity_id();
    let extra = app.upgrade(&handle.downgrade()).unwrap();
    assert_eq!(app.release(extra), Ok(()));
    assert_eq!(app.pending_effects(), 0);
    assert!(app.entities().is_live(id));
    assert_eq!(app.release(handle), Ok(()));
    assert!(!app.entities().is_live(id));
    assert_eq!(app.pending_effects(), 1);
    match app.finish_update() {
        Some(Effect::Release { entity_id, entity_type, entity }) => {
            assert_eq!(entity_id, id);
            assert_eq!(entity_type, MODEL);
            assert_eq!(entity, 12);
        }
        _ => panic!("a release was queued"),
    }
    assert!(app.finish_update().is_none());
}

#[test]
fn release_watchers_are_prepared_in_order_and_then_forgotten() {
    let mut app = App::new();
    let dying = create(&mut app, MODEL, 1);
    let watcher = create(&mut app, OTHER, 2);
    let own = ModelContext::mutable(&mut app, dying.entity_id(), MODEL).on_release("own");
    let seen = ModelContext::mutable(&mut app, watcher.entity_id(), OTHER)
        .observe_release(&dying, "seen");
    let notified = ModelContext::mutable(&mut app, watcher.entity_id(), OTHER)
        .observe(&dying, "notified");
    let subscribed = ModelContext::mutable(&mut app, watcher.entity_id(), OTHER)
        .subscribe(&dying, TypeTag(9), "subscribed");
    assert_eq!(own.kind(), Relation::Release);
    let id = dying.entity_id();
    app.release(dying).unwrap();
    let (entity_id, entity_type) = match app.finish_update() {
        Some(Effect::Release { entity_id, entity_type, .. }) => (entity_id, entity_type),
        _ => panic!("a release was queued"),
    };
    assert_eq!(entity_id, id);
    let ids = app.snapshot(Relation::Release, entity_id);
    assert_eq!(ids, vec![own.number(), seen.number()]);

    let first = app.prepare_release(ids[0], entity_type).unwrap().unwrap();
    assert_eq!(first.callback, "own");
    assert!(first.this.is_none());
    assert!(first.target.is_none());

    let second = app.prepare_release(ids[1], entity_type).unwrap().unwrap();
    assert_eq!(second.callback, "seen");
    assert!(second.target.is_none());
    let this = second.this.unwrap();
    assert_eq!(this.entity_id(), watcher.entity_id());
    assert_eq!(app.entities().strong_count(watcher.entity_id()), 2);
    app.release(this).unwrap();

    app.finish_release(entity_id);
    assert!(app.snapshot(Relation::Release, entity_id).is_empty());
    assert!(app.snapshot(Relation::Observe, entity_id).is_empty());
    assert!(app.snapshot(Relation::Subscribe, entity_id).is_empty());
    assert!(app.prepare_release(own.number(), entity_type).unwrap().is_none());
    assert!(app.prepare_release(seen.number(), entity_type).unwrap().is_none());
    assert!(app.prepare_notify(notified.number()).unwrap().is_none());
    assert!(app.prepare_event(subscribed.number(), TypeTag(9)).unwrap().is_none());
    assert!(app.finish_update().is_none());
    assert_eq!(app.pending_effects(), 0);
}

#[test]
fn a_release_watcher_whose_entity_is_gone_is_passed_over() {
    let mut app = App::new();
    let dying = create(&mut app, MODEL, 1);
    let watcher = create(&mut app, OTHER, 2);
    let token = ModelContext::mutable(&mut app, watcher.entity_id(), OTHER)
        .observe_release(&dying, "seen");
    app.release(watcher).unwrap();
    assert!(app.prepare_release(token.number(), MODEL).unwrap().is_none());
    assert!(app.subscribers(Relation::Release).contains(token.number()));
}

#[test]
fn a_release_watcher_for_another_type_is_a_violation() {
    let mut app = App::new();
    let dying = create(&mut app, MODEL, 1);
    let token = ModelContext::mutable(&mut app, dying.entity_id(), MODEL).on_release("own");
    assert_eq!(
        app.prepare_release(token.number(), OTHER).err(),
        Some(Violation::TypeMismatch)
    );
    assert!(app.subscribers(Relation::Release).contains(token.number()));
}

#[test]
fn a_registration_against_a_released_entity_never_fires() {
    let mut app = App::new();
    let dying = create(&mut app, MODEL, 1);
    let watcher = create(&mut app, OTHER, 2);
    let target = dying.downgrade();
    let id = dying.entity_id();
    app.release(dying).unwrap();
    assert!(!app.entities().is_live(id));
    let this = watcher.downgrade();
    let late = app.register(
        Relation::Observe,
        id,
        Handler { this: Some(this), target, event_type: None, callback: "late" },
    );
    let later = app.register(
        Relation::Subscribe,
        id,
        Handler { this: Some(this), target, event_type: Some(TypeTag(9)), callback: "later" },
    );
    assert_eq!(app.snapshot(Relation::Observe, id), vec![late.number()]);
    assert!(app.prepare_notify(late.number()).unwrap().is_none());
    assert!(app.snapshot(Relation::Observe, id).is_empty());
    assert!(app.prepare_event(later.number(), TypeTag(9)).unwrap().is_none());
    assert!(app.snapshot(Relation::Subscribe, id).is_empty());
    assert!(app.upgrade(&target).is_none());
    assert_eq!(app.entities().strong_count(watcher.entity_id()), 1);
}

#[test]
fn the_release_of_a_released_handle_is_refused() {
    let mut a = App::new();
    let mut b = App::new();
    let handle = create(&mut a, MODEL, 1);
    assert_eq!(b.release(handle), Err(Violation::Released));
    assert_eq!(b.pending_effects(), 0);
}
