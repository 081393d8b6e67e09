use gpui2::{
    AppContext, Callback as Runs, EntityId, Handle, ModelContext, Relation, TypeTag, Violation,
};

const LOG: TypeTag = TypeTag(1);
const NUMBER: TypeTag = TypeTag(20);
const WORD: TypeTag = TypeTag(21);

type Value = Vec<i64>;
type App = AppContext<Value, Callback>;
type Cx<'a> = ModelContext<'a, Value, Callback>;

#[derive(Clone)]
enum Callback {
    Notified(fn(&mut Value, &mut Cx<'_>)),
    Received(fn(&mut Value, &Value, &mut Cx<'_>)),
    Released(fn(&mut Value)),
    SawRelease(fn(&mut Value, &mut Value)),
    Deferred(fn(&mut App)),
}

impl Runs<Value> for Callback {
    fn on_notify(&self, this: &mut Value, _observed: &Handle, cx: &mut Cx<'_>) {
        if let Callback::Notified(f) = self {
            f(this, cx)
        }
    }

    fn on_event(&self, this: &mut Value, _emitter: &Handle, event: &Value, cx: &mut Cx<'_>) {
        if let Callback::Received(f) = self {
            f(this, event, cx)
        }
    }

    fn on_release(&self, released: &mut Value, _app: &mut App) {
        if let Callback::Released(f) = self {
            f(released)
        }
    }

    fn on_observed_release(&self, this: &mut Value, released: &mut Value, _cx: &mut Cx<'_>) {
        if let Callback::SawRelease(f) = self {
            f(this, released)
        }
    }

    fn on_defer(self, app: &mut App) {
        if let Callback::Deferred(f) = self {
            f(app)
        }
    }
}

fn create(app: &mut App, value: Value) -> Handle {
    app.entity(LOG, |_cx| value).unwrap()
}

fn log(app: &App, handle: &Handle) -> Value {
    app.entities().read(handle).unwrap().clone()
}

fn record(state: &mut Value, event: &Value, _cx: &mut Cx<'_>) {
    state.extend(event.iter().copied());
}

fn record_twice(state: &mut Value, event: &Value, _cx: &mut Cx<'_>) {
    state.extend(event.iter().map(|n| n * 2));
}

fn last_words(state: &mut Value) {
    state.push(8);
}

fn mourn(state: &mut Value, released: &mut Value) {
    state.push(released.len() as i64);
    state.push(*released.last().unwrap());
}

fn dispatch_all(app: &mut App) -> Vec<Vec<u64>> {
    let mut calls = Vec::new();
    while let Some(effect) = app.finish_update() {
        calls.push(app.dispatch(effect).unwrap());
    }
    calls
}

#[test]
fn an_event_reaches_every_subscriber_in_registration_order() {
    let mut app = App::new();
    let emitter = create(&mut app, vec![]);
    let listener = create(&mut app, vec![]);
    let numbers = app.update_entity(&listener, |_state, cx| {
        let first = cx.subscribe(&emitter, NUMBER, Callback::Received(record_twice));
        let second = cx.subscribe(&emitter, NUMBER, Callback::Received(record));
        (first.number(), second.number())
    });
    assert_eq!(numbers, Ok((0, 1)));
    app.update_entity(&emitter, |_state, cx| cx.emit(NUMBER, vec![5, 6])).unwrap();
    assert_eq!(log(&app, &listener), vec![10, 12, 5, 6]);
    assert_eq!(app.entities().strong_count(emitter.entity_id()), 1);
    assert_eq!(app.entities().strong_count(listener.entity_id()), 1);
    assert_eq!(app.depth(), 0);
}

#[test]
fn an_event_of_another_type_stops_the_dispatch() {
    let mut app = App::new();
    let emitter = create(&mut app, vec![]);
    let listener = create(&mut app, vec![]);
    app.update_entity(&listener, |_state, cx| {
        cx.subscribe(&emitter, NUMBER, Callback::Received(record));
    })
    .unwrap();
    let outcome = app.update_entity(&emitter, |_state, cx| cx.emit(WORD, vec![1]));
    assert_eq!(outcome, Err(Violation::EventTypeMismatch));
    assert_eq!(log(&app, &listener), Vec::<i64>::new());
}

#[test]
fn a_release_runs_its_watchers_once_with_the_value_and_forgets_the_entity() {
    let mut app = App::new();
    let dying = create(&mut app, vec![7]);
    let watcher = create(&mut app, vec![]);
    let id = dying.entity_id();
    app.update_entity(&dying, |_state, cx| {
        cx.on_release(Callback::Released(last_words));
    })
    .unwrap();
    app.update_entity(&watcher, |_state, cx| {
        cx.observe_release(&dying, Callback::SawRelease(mourn));
        cx.observe(&dying, Callback::Notified(|state, _cx| state.push(-1)));
    })
    .unwrap();
    app.begin_update();
    assert_eq!(app.release(dying), Ok(()));
    assert!(!app.entities().is_live(id));
    assert_eq!(log(&app, &watcher), Vec::<i64>::new());
    assert_eq!(dispatch_all(&mut app), vec![vec![0, 1]]);
    assert_eq!(log(&app, &watcher), vec![2, 8]);
    for relation in [Relation::Observe, Relation::Subscribe, Relation::Release] {
        assert!(app.snapshot(relation, id).is_empty());
    }
    assert_eq!(app.pending_effects(), 0);
    assert_eq!(app.depth(), 0);
    app.begin_update();
    app.notify(id);
    assert_eq!(dispatch_all(&mut app), vec![Vec::<u64>::new()]);
    assert_eq!(log(&app, &watcher), vec![2, 8]);
}

#[test]
fn effects_of_different_kinds_are_dispatched_in_the_order_queued() {
    let mut app = App::new();
    let source = create(&mut app, vec![]);
    let holder = create(&mut app, vec![]);
    let kept = create(&mut app, vec![3]);
    let kept_id = kept.entity_id();
    app.update_entity(&kept, |_state, cx| {
        cx.on_release(Callback::Released(last_words));
    })
    .unwrap();
    app.update_entity(&holder, |_state, cx| {
        cx.observe_release(&kept, Callback::SawRelease(mourn));
        cx.observe(&source, Callback::Notified(|state, _cx| state.push(1)));
    })
    .unwrap();
    app.begin_update();
    app.notify(source.entity_id());
    app.release(kept).unwrap();
    app.notify(source.entity_id());
    assert_eq!(dispatch_all(&mut app), vec![vec![0], vec![0, 1], vec![0]]);
    assert_eq!(log(&app, &holder), vec![1, 2, 8, 1]);
    assert!(!app.entities().is_live(kept_id));
}

#[test]
fn a_release_in_an_update_is_delivered_when_the_update_ends() {
    let mut app = App::new();
    let dying = create(&mut app, vec![7]);
    let watcher = create(&mut app, vec![]);
    app.update_entity(&watcher, |_state, cx| {
        cx.observe_release(&dying, Callback::SawRelease(mourn));
    })
    .unwrap();
    let released = app.update(|app| {
        let released = app.release(dying);
        assert_eq!(app.pending_effects(), 1);
        released
    });
    assert_eq!(released, Ok(Ok(())));
    assert_eq!(log(&app, &watcher), vec![1, 7]);
    assert_eq!(app.pending_effects(), 0);
}

#[test]
fn a_deferred_callback_runs_with_the_runtime() {
    let mut app = App::new();
    let queued = app.update(|app| {
        app.defer(Callback::Deferred(|app| app.refresh()));
        app.notify(EntityId(40));
        app.take_refresh()
    });
    assert_eq!(queued, Ok(false));
    assert!(app.take_refresh());
    assert_eq!(app.pending_effects(), 0);
}

#[test]
fn a_callback_removed_before_its_turn_is_not_run() {
    let mut app = App::new();
    let emitter = create(&mut app, vec![]);
    let listener = create(&mut app, vec![]);
    let tokens = app
        .update_entity(&listener, |_state, cx| {
            let first = cx.observe(&emitter, Callback::Notified(|state, _cx| state.push(1)));
            let second = cx.observe(&emitter, Callback::Notified(|state, _cx| state.push(2)));
            (first, second)
        })
        .unwrap();
    app.begin_update();
    app.notify(emitter.entity_id());
    let effect = app.finish_update().unwrap();
    app.unsubscribe(tokens.1);
    assert_eq!(app.dispatch(effect), Ok(vec![tokens.0.number()]));
    assert_eq!(log(&app, &listener), vec![1]);
    assert!(app.finish_update().is_none());
}

#[test]
fn a_dispatch_that_prepares_no_delivery_runs_nothing() {
    let mut app = App::new();
    let emitter = create(&mut app, vec![]);
    let listener = create(&mut app, vec![]);
    let other = create(&mut app, vec![]);
    let tokens = app
        .update_entity(&listener, |_state, cx| {
            let gone = cx.observe(&emitter, Callback::Notified(|state, _cx| state.push(1)));
            let dropped = cx.observe(&emitter, Callback::Notified(|state, _cx| state.push(2)));
            (gone.number(), dropped)
        })
        .unwrap();
    app.update_entity(&other, |_state, cx| {
        cx.observe_release(&listener, Callback::SawRelease(mourn));
    })
    .unwrap();
    app.unsubscribe(tokens.1);
    app.release(listener).unwrap();
    assert_eq!(app.dispatch_notify(EntityId(9)), Ok(vec![]));
    assert_eq!(app.subscribers(Relation::Observe).len(), 1);
    assert_eq!(app.dispatch_notify(emitter.entity_id()), Ok(vec![]));
    assert_eq!(app.subscribers(Relation::Observe).len(), 0);
    assert!(!app.subscribers(Relation::Observe).contains(tokens.0));
    assert_eq!(app.entities().strong_count(emitter.entity_id()), 1);
    assert_eq!(app.pending_effects(), 1);
    assert_eq!(log(&app, &other), Vec::<i64>::new());
}

#[test]
fn a_violation_ends_the_dispatch_where_it_stands() {
    let mut app = App::new();
    let dying = create(&mut app, vec![7]);
    let watcher = create(&mut app, vec![]);
    let id = dying.entity_id();
    app.update_entity(&watcher, |_state, cx| {
        cx.observe_release(&dying, Callback::SawRelease(mourn));
    })
    .unwrap();
    let mut value = vec![7];
    assert_eq!(app.dispatch_release(id, WORD, &mut value), Err(Violation::TypeMismatch));
    assert_eq!(value, vec![7]);
    assert_eq!(app.snapshot(Relation::Release, id), vec![0]);
    assert_eq!(log(&app, &watcher), Vec::<i64>::new());
    assert_eq!(app.entities().strong_count(watcher.entity_id()), 1);
    assert_eq!(app.dispatch_release(id, LOG, &mut value), Ok(vec![0]));
    assert_eq!(log(&app, &watcher), vec![1, 7]);
    assert!(app.snapshot(Relation::Release, id).is_empty());
    assert_eq!(app.entities().strong_count(watcher.entity_id()), 1);
}

#[test]
fn a_delivery_to_an_entity_that_is_out_of_the_store_is_refused() {
    let mut app = App::new();
    let emitter = create(&mut app, vec![]);
    let listener = create(&mut app, vec![]);
    app.update_entity(&listener, |_state, cx| {
        cx.observe(&emitter, Callback::Notified(|state, _cx| state.push(1)));
    })
    .unwrap();
    let lease = app.lease(&listener).unwrap();
    assert_eq!(app.dispatch_notify(emitter.entity_id()), Err(Violation::Absent));
    app.end_lease(lease).unwrap();
    assert_eq!(log(&app, &listener), Vec::<i64>::new());
    assert!(app.subscribers(Relation::Observe).contains(0));
}
