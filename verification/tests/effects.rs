use gpui2::{AppContext, Effect, EffectQueue, EntityId, TypeTag};

type App = AppContext<i64, &'static str>;

fn tag(effect: &Effect<i64, &'static str>) -> String {
    match effect {
        Effect::Notify { emitter } => format!("notify {}", emitter.0),
        Effect::Emit { emitter, event_type, event } => {
            format!("emit {} {} {}", emitter.0, event_type.0, event)
        }
        Effect::Release { entity_id, entity_type, entity } => {
            format!("release {} {} {}", entity_id.0, entity_type.0, entity)
        }
        Effect::Defer { callback } => format!("defer {}", callback),
    }
}

#[test]
fn the_queue_is_first_in_first_out() {
    let mut queue: EffectQueue<i64, &'static str> = EffectQueue::new();
    assert!(queue.is_empty());
    queue.push(Effect::Notify { emitter: EntityId(1) });
    queue.push(Effect::Defer { callback: "later" });
    queue.push(Effect::Notify { emitter: EntityId(2) });
    assert_eq!(queue.len(), 3);
    assert_eq!(tag(&queue.pop().unwrap()), "notify 1");
    queue.push(Effect::Notify { emitter: EntityId(3) });
    assert_eq!(tag(&queue.pop().unwrap()), "defer later");
    assert_eq!(tag(&queue.pop().unwrap()), "notify 2");
    assert_eq!(tag(&queue.pop().unwrap()), "notify 3");
    assert!(queue.pop().is_none());
    assert!(queue.is_empty());
}

#[test]
fn the_outermost_update_hands_out_every_effect_in_order() {
    let mut app = App::new();
    app.begin_update();
    app.notify(EntityId(4));
    app.emit(EntityId(5), TypeTag(9), 17);
    app.defer("tidy");
    assert_eq!(app.pending_effects(), 3);
    let mut seen = Vec::new();
    while let Some(effect) = app.finish_update() {
        assert_eq!(app.depth(), 1);
        if seen.is_empty() {
            app.notify(EntityId(6));
        }
        seen.push(tag(&effect));
    }
    assert_eq!(seen, vec!["notify 4", "emit 5 9 17", "defer tidy", "notify 6"]);
    assert_eq!(app.pending_effects(), 0);
    assert_eq!(app.depth(), 0);
}

#[test]
fn an_inner_update_does_not_flush() {
    let mut app = App::new();
    app.begin_update();
    app.begin_update();
    app.notify(EntityId(1));
    assert_eq!(app.depth(), 2);
    assert!(app.finish_update().is_none());
    assert_eq!(app.depth(), 1);
    assert_eq!(app.pending_effects(), 1);
    assert_eq!(tag(&app.finish_update().unwrap()), "notify 1");
    assert_eq!(app.depth(), 1);
    assert!(app.finish_update().is_none());
    assert_eq!(app.depth(), 0);
}

#[test]
fn an_update_during_the_flush_appends_to_the_same_queue() {
    let mut app = App::new();
    app.begin_update();
    app.notify(EntityId(1));
    app.notify(EntityId(2));
    let first = app.finish_update().unwrap();
    assert_eq!(tag(&first), "notify 1");
    app.begin_update();
    app.notify(EntityId(3));
    assert!(app.finish_update().is_none());
    assert_eq!(app.pending_effects(), 2);
    assert_eq!(tag(&app.finish_update().unwrap()), "notify 2");
    assert_eq!(tag(&app.finish_update().unwrap()), "notify 3");
    assert!(app.finish_update().is_none());
    assert_eq!(app.depth(), 0);
}

#[test]
fn an_idle_runtime_flushes_what_was_queued_outside_an_update() {
    let mut app = App::new();
    app.notify(EntityId(8));
    assert_eq!(app.depth(), 0);
    assert_eq!(tag(&app.finish_update().unwrap()), "notify 8");
    assert_eq!(app.depth(), 1);
    assert!(app.finish_update().is_none());
    assert_eq!(app.depth(), 0);
}

#[test]
fn a_refresh_is_asked_for_once() {
    let mut app = App::new();
    assert!(!app.take_refresh());
    app.refresh();
    app.refresh();
    assert!(app.take_refresh());
    assert!(!app.take_refresh());
}
