use gpui2::{
    AppContext, Callback as Runs, Dropped, Effect, Handle, ModelContext, Relation, TypeTag,
    Violation,
};

const LOG: TypeTag = TypeTag(1);
const NUMBER: TypeTag = TypeTag(20);
const WORD: TypeTag = TypeTag(21);

type Value = Vec<i64>;
type App = AppContext<Value, Step>;
type Cx<'a> = ModelContext<'a, Value, Step>;

#[derive(Clone)]
enum Step {
    Count,
    Copy,
    Sign,
    Mourn,
}

impl Runs<Value> for Step {
    fn on_notify(&self, this: &mut Value, observed: &Handle, _cx: &mut Cx<'_>) {
        if let Step::Count = self {
            this.push(observed.entity_id().0 as i64);
        }
    }

    fn on_event(&self, this: &mut Value, _emitter: &Handle, event: &Value, _cx: &mut Cx<'_>) {
        if let Step::Copy = self {
            this.extend(event.iter().copied());
        }
    }

    fn on_release(&self, released: &mut Value, _app: &mut App) {
        if let Step::Sign = self {
            released.push(-1);
        }
    }

    fn on_observed_release(&self, this: &mut Value, released: &mut Value, _cx: &mut Cx<'_>) {
        if let Step::Mourn = self {
            this.push(released.len() as i64);
            released.push(-2);
        }
    }

    fn on_defer(self, app: &mut App) {
        app.refresh();
    }
}

fn create(app: &mut App, value: Value) -> Handle {
    app.entity(LOG, |_cx| value).unwrap()
}

fn log(app: &App, handle: &Handle) -> Value {
    app.entities().read(handle).unwrap().clone()
}

#[test]
fn a_turn_runs_the_callback_of_a_live_observer() {
    let mut app = App::new();
    let source = create(&mut app, vec![]);
    let observer = create(&mut app, vec![]);
    let token = app.update_entity(&observer, |_state, cx| cx.observe(&source, Step::Count)).unwrap();
    assert_eq!(app.take_turn(token.number(), None, None), Ok(true));
    assert_eq!(log(&app, &observer), vec![source.entity_id().0 as i64]);
    assert_eq!(app.entities().strong_count(source.entity_id()), 1);
    assert_eq!(app.entities().strong_count(observer.entity_id()), 1);
    assert_eq!(app.take_turn(token.number(), None, None), Ok(true));
    assert_eq!(log(&app, &observer).len(), 2);
}

#[test]
fn a_turn_of_a_number_that_is_not_registered_passes() {
    let mut app = App::new();
    let source = create(&mut app, vec![]);
    let observer = create(&mut app, vec![4]);
    let token = app.update_entity(&observer, |_state, cx| cx.observe(&source, Step::Count)).unwrap();
    assert_eq!(app.take_turn(token.number() + 1, None, None), Ok(false));
    let number = token.number();
    app.unsubscribe(token);
    assert_eq!(app.take_turn(number, None, None), Ok(false));
    assert_eq!(log(&app, &observer), vec![4]);
    assert_eq!(app.pending_effects(), 0);
}

#[test]
fn a_turn_with_an_event_runs_the_subscriber() {
    let mut app = App::new();
    let emitter = create(&mut app, vec![]);
    let listener = create(&mut app, vec![]);
    let token = app
        .update_entity(&listener, |_state, cx| cx.subscribe(&emitter, NUMBER, Step::Copy))
        .unwrap();
    let event = vec![3, 4];
    assert_eq!(app.take_turn(token.number(), Some(NUMBER), Some(&event)), Ok(true));
    assert_eq!(log(&app, &listener), vec![3, 4]);
    assert_eq!(
        app.take_turn(token.number(), Some(WORD), Some(&event)),
        Err(Violation::EventTypeMismatch)
    );
    assert_eq!(log(&app, &listener), vec![3, 4]);
    assert_eq!(app.entities().strong_count(emitter.entity_id()), 1);
    assert_eq!(app.entities().strong_count(listener.entity_id()), 1);
}

#[test]
fn a_turn_on_an_observer_that_is_being_updated_stops() {
    let mut app = App::new();
    let source = create(&mut app, vec![]);
    let observer = create(&mut app, vec![]);
    let token = app.update_entity(&observer, |_state, cx| cx.observe(&source, Step::Count)).unwrap();
    let lease = app.lease(&observer).unwrap();
    assert_eq!(app.take_turn(token.number(), None, None), Err(Violation::Absent));
    app.end_lease(lease).unwrap();
    assert_eq!(log(&app, &observer), Vec::<i64>::new());
}

#[test]
fn a_release_turn_runs_each_watcher_with_the_value_that_left() {
    let mut app = App::new();
    let dying = create(&mut app, vec![7]);
    let watcher = create(&mut app, vec![]);
    let id = dying.entity_id();
    let own = app.update_entity(&dying, |_state, cx| cx.on_release(Step::Sign)).unwrap();
    let seen =
        app.update_entity(&watcher, |_state, cx| cx.observe_release(&dying, Step::Mourn)).unwrap();
    app.begin_update();
    app.release(dying).unwrap();
    let (entity_type, mut value) = match app.finish_update() {
        Some(Effect::Release { entity_id, entity_type, entity }) => {
            assert_eq!(entity_id, id);
            (entity_type, entity)
        }
        _ => panic!("a release was queued"),
    };
    assert_eq!(app.snapshot(Relation::Release, id), vec![own.number(), seen.number()]);
    assert_eq!(app.take_release_turn(own.number(), entity_type, &mut value), Ok(true));
    assert_eq!(value, vec![7, -1]);
    assert_eq!(app.take_release_turn(seen.number(), entity_type, &mut value), Ok(true));
    assert_eq!(value, vec![7, -1, -2]);
    assert_eq!(log(&app, &watcher), vec![2]);
    assert_eq!(app.take_release_turn(seen.number() + 5, entity_type, &mut value), Ok(false));
    assert_eq!(value, vec![7, -1, -2]);
    assert_eq!(app.entities().strong_count(watcher.entity_id()), 1);
}

#[test]
fn a_delivery_runs_its_callback_and_gives_its_handles_back() {
    let mut app = App::new();
    let source = create(&mut app, vec![]);
    let observer = create(&mut app, vec![]);
    let token = app.update_entity(&observer, |_state, cx| cx.observe(&source, Step::Count)).unwrap();
    let delivery = app.prepare_notify(token.number()).unwrap().expect("both entities are live");
    assert_eq!(app.entities().strong_count(source.entity_id()), 2);
    assert_eq!(app.entities().strong_count(observer.entity_id()), 2);
    assert_eq!(app.deliver(delivery, None), Ok(true));
    assert_eq!(log(&app, &observer), vec![source.entity_id().0 as i64]);
    assert_eq!(app.entities().strong_count(source.entity_id()), 1);
    assert_eq!(app.entities().strong_count(observer.entity_id()), 1);
}

#[test]
fn a_delivery_of_a_release_runs_on_the_released_value() {
    let mut app = App::new();
    let dying = create(&mut app, vec![1]);
    let own = app.update_entity(&dying, |_state, cx| cx.on_release(Step::Sign)).unwrap();
    let delivery = app.prepare_release(own.number(), LOG).unwrap().expect("it is registered");
    let mut value = vec![9];
    assert_eq!(app.deliver_release(delivery, &mut value), Ok(()));
    assert_eq!(value, vec![9, -1]);
    assert_eq!(log(&app, &dying), vec![1]);
}

#[test]
fn one_step_of_a_flush_dispatches_an_effect_and_hands_out_the_next() {
    let mut app = App::new();
    let source = create(&mut app, vec![]);
    let observer = create(&mut app, vec![]);
    app.update_entity(&observer, |_state, cx| cx.observe(&source, Step::Count)).unwrap();
    app.begin_update();
    app.notify(source.entity_id());
    app.defer(Step::Count);
    assert_eq!(app.pending_effects(), 2);
    let first = app.finish_update().expect("two effects wait");
    assert_eq!(app.depth(), 1);
    let second = app.flush_one(first).unwrap().expect("the deferred callback waits");
    assert!(matches!(second, Effect::Defer { .. }));
    assert_eq!(log(&app, &observer).len(), 1);
    assert_eq!(app.depth(), 1);
    assert!(!app.take_refresh());
    assert!(app.flush_one(second).unwrap().is_none());
    assert!(app.take_refresh());
    assert_eq!(app.depth(), 0);
    assert_eq!(app.pending_effects(), 0);
}

#[test]
fn an_update_that_nobody_hears_ends_idle_with_an_empty_queue() {
    let mut app = App::new();
    let lonely = create(&mut app, vec![1]);
    let id = lonely.entity_id();
    app.begin_update();
    app.notify(id);
    app.emit(id, NUMBER, vec![2]);
    app.release(lonely).unwrap();
    app.notify(id);
    assert_eq!(app.pending_effects(), 4);
    assert_eq!(app.end_update(), Ok(()));
    assert_eq!(app.depth(), 0);
    assert_eq!(app.pending_effects(), 0);
    assert!(!app.entities().is_live(id));
}

#[test]
fn the_end_of_an_inner_update_dispatches_nothing() {
    let mut app = App::new();
    let source = create(&mut app, vec![]);
    let observer = create(&mut app, vec![]);
    app.update_entity(&observer, |_state, cx| cx.observe(&source, Step::Count)).unwrap();
    let seen = app.update(|app| {
        let inner = app.update_entity(&source, |_state, cx| cx.notify());
        (inner, app.pending_effects(), app.depth(), log(app, &observer))
    });
    assert_eq!(seen, Ok((Ok(()), 1, 1, vec![])));
    assert_eq!(log(&app, &observer), vec![source.entity_id().0 as i64]);
    assert_eq!(app.pending_effects(), 0);
    assert_eq!(app.depth(), 0);
}

#[test]
fn what_went_out_of_use_is_taken_back_in_order() {
    let mut app = App::new();
    let source = create(&mut app, vec![1]);
    let observer = create(&mut app, vec![]);
    let id = source.entity_id();
    let token = app.update_entity(&observer, |_state, cx| cx.observe(&source, Step::Count)).unwrap();
    let second = app.upgrade(&source.downgrade()).unwrap();
    assert_eq!(app.entities().strong_count(id), 2);
    app.begin_update();
    let dropped = vec![Dropped::Handle(second), Dropped::Subscription(token), Dropped::Handle(source)];
    assert_eq!(app.give_back_all(dropped), Ok(()));
    assert!(!app.entities().is_live(id));
    assert!(app.snapshot(Relation::Observe, id).is_empty());
    assert_eq!(app.pending_effects(), 1);
    assert_eq!(app.give_back_all(Vec::new()), Ok(()));
    assert_eq!(app.end_update(), Ok(()));
    assert_eq!(log(&app, &observer), Vec::<i64>::new());
}

#[test]
fn a_handle_that_the_store_refuses_ends_the_taking_back() {
    let mut app = App::new();
    let mut other = App::new();
    create(&mut other, vec![]);
    let stranger = create(&mut other, vec![]);
    let kept = create(&mut app, vec![1]);
    let id = kept.entity_id();
    let dropped = vec![Dropped::Handle(stranger), Dropped::Handle(kept)];
    assert_eq!(app.give_back_all(dropped), Err(Violation::Released));
    assert!(app.entities().is_live(id));
    assert_eq!(app.entities().strong_count(id), 1);
    assert_eq!(app.pending_effects(), 0);
}
