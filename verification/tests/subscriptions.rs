use gpui2::{
    AppContext, EntityId, Handle, Handler, ModelContext, Relation, SubscriberSet, TypeTag,
    Violation,
};

const MODEL: TypeTag = TypeTag(1);
const CLICK: TypeTag = TypeTag(50);
const KEY: TypeTag = TypeTag(51);

type App = AppContext<i64, &'static str>;

fn create(app: &mut App, value: i64) -> Handle {
    let slot = app.reserve(MODEL);
    app.insert(slot, value).unwrap()
}

fn handler(name: &'static str) -> Handler<&'static str> {
    Handler {
        this: None,
        target: gpui2::WeakHandle { id: EntityId(0), type_tag: MODEL },
        event_type: None,
        callback: name,
    }
}

#[test]
fn a_snapshot_lists_callbacks_in_registration_order() {
    let mut set: SubscriberSet<Handler<&'static str>> = SubscriberSet::new();
    assert!(set.can_insert());
    let a = set.insert(EntityId(1), handler("a"));
    let b = set.insert(EntityId(2), handler("b"));
    let c = set.insert(EntityId(1), handler("c"));
    let d = set.insert(EntityId(1), handler("d"));
    assert_eq!((a, b, c, d), (0, 1, 2, 3));
    assert_eq!(set.snapshot(EntityId(1)), vec![0, 2, 3]);
    assert_eq!(set.snapshot(EntityId(2)), vec![1]);
    assert_eq!(set.snapshot(EntityId(3)), Vec::<u64>::new());
    assert_eq!(set.len(), 4);
    assert_eq!(set.get(2).map(|entry| entry.handler.callback), Some("c"));
    assert_eq!(set.get(2).map(|entry| entry.emitter), Some(EntityId(1)));
}

#[test]
fn a_removed_callback_is_gone_and_its_number_is_not_reused() {
    let mut set: SubscriberSet<Handler<&'static str>> = SubscriberSet::new();
    set.insert(EntityId(1), handler("a"));
    set.insert(EntityId(1), handler("b"));
    set.insert(EntityId(1), handler("c"));
    set.remove(1);
    assert!(!set.contains(1));
    assert!(set.get(1).is_none());
    assert_eq!(set.snapshot(EntityId(1)), vec![0, 2]);
    set.remove(1);
    assert_eq!(set.snapshot(EntityId(1)), vec![0, 2]);
    let next = set.insert(EntityId(1), handler("d"));
    assert_eq!(next, 3);
    assert_eq!(set.snapshot(EntityId(1)), vec![0, 2, 3]);
    assert!(!set.contains(1));
}

#[test]
fn removing_an_emitter_removes_all_filed_under_it() {
    let mut set: SubscriberSet<Handler<&'static str>> = SubscriberSet::new();
    set.insert(EntityId(1), handler("a"));
    set.insert(EntityId(2), handler("b"));
    set.insert(EntityId(1), handler("c"));
    set.remove_emitter(EntityId(1));
    assert_eq!(set.snapshot(EntityId(1)), Vec::<u64>::new());
    assert_eq!(set.snapshot(EntityId(2)), vec![1]);
    assert_eq!(set.len(), 1);
    assert!(set.contains(1));
    assert!(!set.contains(0));
    assert!(!set.contains(2));
}

#[test]
fn observers_are_delivered_in_registration_order() {
    let mut app = App::new();
    let emitter = create(&mut app, 0);
    let first = create(&mut app, 0);
    let second = create(&mut app, 0);
    let a = ModelContext::mutable(&mut app, second.entity_id(), MODEL)
        .observe(&emitter, "second registered first");
    let b = ModelContext::mutable(&mut app, first.entity_id(), MODEL)
        .observe(&emitter, "first registered second");
    assert_eq!(a.kind(), Relation::Observe);
    assert!(a.number() < b.number());
    let ids = app.snapshot(Relation::Observe, emitter.entity_id());
    assert_eq!(ids, vec![a.number(), b.number()]);
    let mut order = Vec::new();
    for id in ids {
        let delivery = app.prepare_notify(id).unwrap().expect("both entities are live");
        assert_eq!(delivery.subscription, id);
        order.push(delivery.callback);
        let this = delivery.this.unwrap();
        let target = delivery.target.unwrap();
        assert_eq!(target.entity_id(), emitter.entity_id());
        app.release(this).unwrap();
        app.release(target).unwrap();
    }
    assert_eq!(order, vec!["second registered first", "first registered second"]);
    assert_eq!(app.entities().strong_count(emitter.entity_id()), 1);
}

#[test]
fn a_dropped_subscription_is_never_delivered_again() {
    let mut app = App::new();
    let emitter = create(&mut app, 0);
    let observer = create(&mut app, 0);
    let keep = ModelContext::mutable(&mut app, observer.entity_id(), MODEL)
        .observe(&emitter, "keep");
    let drop = ModelContext::mutable(&mut app, observer.entity_id(), MODEL)
        .observe(&emitter, "drop");
    let dropped = drop.number();
    let ids = app.snapshot(Relation::Observe, emitter.entity_id());
    assert_eq!(ids, vec![keep.number(), dropped]);
    app.unsubscribe(drop);
    assert!(app.prepare_notify(dropped).unwrap().is_none());
    assert_eq!(app.snapshot(Relation::Observe, emitter.entity_id()), vec![keep.number()]);
    let late = ModelContext::mutable(&mut app, observer.entity_id(), MODEL)
        .observe(&emitter, "late");
    assert!(late.number() > dropped);
    assert!(app.prepare_notify(dropped).unwrap().is_none());
    assert!(!app.subscribers(Relation::Observe).contains(dropped));
    assert_eq!(app.entities().strong_count(observer.entity_id()), 1);
}

#[test]
fn a_callback_registered_during_delivery_waits_for_the_next_one() {
    let mut app = App::new();
    let emitter = create(&mut app, 0);
    let observer = create(&mut app, 0);
    ModelContext::mutable(&mut app, observer.entity_id(), MODEL).observe(&emitter, "early");
    let ids = app.snapshot(Relation::Observe, emitter.entity_id());
    ModelContext::mutable(&mut app, observer.entity_id(), MODEL).observe(&emitter, "late");
    assert_eq!(ids.len(), 1);
    assert_eq!(app.snapshot(Relation::Observe, emitter.entity_id()).len(), 2);
}

#[test]
fn an_observer_whose_entity_is_gone_is_removed_and_not_called() {
    let mut app = App::new();
    let emitter = create(&mut app, 0);
    let observer = create(&mut app, 0);
    let token = ModelContext::mutable(&mut app, observer.entity_id(), MODEL)
        .observe(&emitter, "orphan");
    app.release(observer).unwrap();
    assert!(app.subscribers(Relation::Observe).contains(token.number()));
    assert!(app.prepare_notify(token.number()).unwrap().is_none());
    assert!(!app.subscribers(Relation::Observe).contains(token.number()));
    assert_eq!(app.entities().strong_count(emitter.entity_id()), 1);
}

#[test]
fn a_subscriber_receives_only_the_type_it_registered_for() {
    let mut app = App::new();
    let emitter = create(&mut app, 0);
    let observer = create(&mut app, 0);
    let token = ModelContext::mutable(&mut app, observer.entity_id(), MODEL)
        .subscribe(&emitter, CLICK, "on click");
    assert_eq!(token.kind(), Relation::Subscribe);
    assert_eq!(
        app.prepare_event(token.number(), KEY).err(),
        Some(Violation::EventTypeMismatch)
    );
    assert!(app.subscribers(Relation::Subscribe).contains(token.number()));
    let delivery = app.prepare_event(token.number(), CLICK).unwrap().unwrap();
    assert_eq!(delivery.callback, "on click");
    assert_eq!(delivery.this.as_ref().unwrap().entity_id(), observer.entity_id());
    assert_eq!(delivery.target.as_ref().unwrap().entity_id(), emitter.entity_id());
    assert_eq!(app.entities().strong_count(observer.entity_id()), 2);
    assert_eq!(app.entities().strong_count(emitter.entity_id()), 2);
    assert!(app.prepare_event(99, CLICK).unwrap().is_none());
}

#[test]
fn a_subscriber_whose_emitter_is_gone_is_removed() {
    let mut app = App::new();
    let emitter = create(&mut app, 0);
    let observer = create(&mut app, 0);
    let token = ModelContext::mutable(&mut app, observer.entity_id(), MODEL)
        .subscribe(&emitter, CLICK, "on click");
    app.release(emitter).unwrap();
    assert!(app.prepare_event(token.number(), CLICK).unwrap().is_none());
    assert!(!app.subscribers(Relation::Subscribe).contains(token.number()));
}

#[test]
fn emit_queues_the_event_under_the_context_entity() {
    let mut app = App::new();
    let emitter = create(&mut app, 0);
    let mut cx = ModelContext::mutable(&mut app, emitter.entity_id(), MODEL);
    cx.emit(CLICK, 33);
    cx.notify();
    cx.refresh();
    assert_eq!(cx.handle().id, emitter.entity_id());
    assert_eq!(cx.handle().type_tag, MODEL);
    match app.finish_update() {
        Some(gpui2::Effect::Emit { emitter: from, event_type, event }) => {
            assert_eq!(from, emitter.entity_id());
            assert_eq!(event_type, CLICK);
            assert_eq!(event, 33);
        }
        _ => panic!("the event was queued first"),
    }
    match app.finish_update() {
        Some(gpui2::Effect::Notify { emitter: from }) => assert_eq!(from, emitter.entity_id()),
        _ => panic!("the notification was queued second"),
    }
    assert!(app.finish_update().is_none());
    assert!(app.take_refresh());
    assert!(app.can_register(Relation::Observe));
}
