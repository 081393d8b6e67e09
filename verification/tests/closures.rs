use gpui2::{
    App, AppContext, AsyncWindowContext, BridgeError, EntityId, ModelContext, TypeTag, Violation,
    WindowId,
};

const THEME: TypeTag = TypeTag(100);
const MODEL: TypeTag = TypeTag(1);

type Quiet = gpui2::NoCallback;

type Runtime = AppContext<i64, Quiet>;

fn with<R>(app: &App<i64, Quiet>, update: impl FnOnce(&mut Runtime) -> R) -> R {
    app.update(update).expect("the runtime is free")
}

#[test]
fn a_global_is_read_while_it_is_out_of_the_table() {
    let mut app = Runtime::new();
    app.set_global(THEME, 4).unwrap();
    let seen = app.read_global(THEME, |global: &i64, app: &Runtime| {
        assert_eq!(app.globals().get(THEME), Err(Violation::GlobalAbsent));
        *global + 1
    });
    assert_eq!(seen, Ok(5));
    assert_eq!(app.globals().get(THEME), Ok(&4));
    let missing = app.read_global(TypeTag(5), |global: &i64, _app: &Runtime| *global);
    assert_eq!(missing, Err(Violation::GlobalMissing));
}

#[test]
fn a_global_is_updated_in_place_within_an_update() {
    let mut app = Runtime::new();
    app.set_global(THEME, 4).unwrap();
    let out = app.update_global(THEME, |global: &mut i64, app: &mut Runtime| {
        *global *= 10;
        assert_eq!(app.depth(), 1);
        assert_eq!(app.lease_global(THEME).err(), Some(Violation::GlobalAbsent));
        app.refresh();
        app.notify(EntityId(3));
        "done"
    });
    assert_eq!(out, Ok("done"));
    assert_eq!(app.globals().get(THEME), Ok(&40));
    assert!(app.take_refresh());
    assert_eq!(app.pending_effects(), 0);
    assert_eq!(app.depth(), 0);
    let missing = app.update_global(TypeTag(5), |_global: &mut i64, _app: &mut Runtime| 0);
    assert_eq!(missing, Err(Violation::GlobalMissing));
    assert_eq!(app.depth(), 0);
}

#[test]
fn a_context_reads_and_updates_globals() {
    let mut app = Runtime::new();
    app.set_global(THEME, 1).unwrap();
    let built = app.entity(MODEL, |cx| {
        let read = cx.read_global(THEME, |global: &i64, _app: &Runtime| *global).unwrap();
        let id = cx.entity_id;
        let updated = cx
            .update_global(THEME, |global: &mut i64, cx: &mut ModelContext<'_, i64, Quiet>| {
                assert_eq!(cx.entity_id, id);
                *global += 1;
                cx.notify();
                *global
            })
            .unwrap();
        assert_eq!(cx.app.pending_effects(), 1);
        read * 100 + updated
    });
    let handle = built.unwrap();
    assert_eq!(app.entities().read(&handle), Ok(&102));
    assert_eq!(app.globals().get(THEME), Ok(&2));
    assert_eq!(app.pending_effects(), 0);
}

#[test]
fn a_window_is_read_in_place() {
    let mut app = Runtime::new();
    let id = app.open_window(3);
    let seen = app.read_window(id, |window: &i64, app: &Runtime| {
        assert!(app.windows().is_open(id));
        *window * 2
    });
    assert_eq!(seen, Ok(6));
    let missing = app.read_window(WindowId(9), |window: &i64, _app: &Runtime| *window);
    assert_eq!(missing, Err(BridgeError::WindowNotFound));
    let lease = app.lease_window(id).unwrap();
    let absent = app.read_window(id, |window: &i64, _app: &Runtime| *window);
    assert_eq!(absent, Err(BridgeError::Violation(Violation::Absent)));
    app.end_window_lease(lease).unwrap();
    assert_eq!(app.windows().read(id), Ok(&3));
}

#[test]
fn a_window_is_updated_within_an_update() {
    let mut app = Runtime::new();
    let id = app.open_window(3);
    let out = app.update_window(id, |window: &mut i64, app: &mut Runtime| {
        *window += 1;
        assert_eq!(app.depth(), 1);
        assert_eq!(app.lease_window(id).err(), Some(BridgeError::Violation(Violation::Absent)));
        app.notify(EntityId(0));
        *window
    });
    assert_eq!(out, Ok(4));
    assert_eq!(app.pending_effects(), 0);
    assert_eq!(app.depth(), 0);
    assert_eq!(app.windows().read(id), Ok(&4));
    let missing = app.update_window(WindowId(9), |window: &mut i64, _app: &mut Runtime| *window);
    assert_eq!(missing, Err(BridgeError::WindowNotFound));
    assert_eq!(app.depth(), 0);
    let closed = app.update_window(id, |_window: &mut i64, app: &mut Runtime| {
        app.close_window(id)
    });
    assert_eq!(closed, Err(BridgeError::WindowNotFound));
    assert!(!app.windows().is_open(id));
}

#[test]
fn the_bridge_creates_and_updates_entities() {
    let app: App<i64, Quiet> = App::new();
    let mut bridge = app.to_async();
    let handle = bridge.entity(MODEL, |cx| cx.entity_id.0 as i64 + 40).unwrap();
    assert_eq!(handle.entity_id(), EntityId(0));
    let seen = bridge.update_entity(&handle, |state, cx| {
        *state += 2;
        cx.notify();
        *state
    });
    assert_eq!(seen, Ok(42));
    assert_eq!(with(&app, |cx: &mut Runtime| cx.pending_effects()), 0);
    let stale = with(&app, |cx: &mut Runtime| {
        let other = cx.upgrade(&handle.downgrade()).unwrap();
        cx.lease(&other).map(|lease| (other, lease))
    });
    let (other, lease) = stale.unwrap();
    assert_eq!(
        bridge.update_entity(&handle, |state, _cx| *state),
        Err(BridgeError::Violation(Violation::Absent))
    );
    with(&app, |cx: &mut Runtime| {
        cx.end_lease(lease).unwrap();
        cx.release(other).unwrap();
    });
    bridge.update(|cx: &mut Runtime| cx.set_global(THEME, 1).unwrap()).unwrap();
    assert_eq!(bridge.update_global(THEME, |global, _app| std::mem::replace(global, 2)), Ok(1));
    assert_eq!(bridge.read_global(THEME, |global: &i64, _app: &Runtime| *global), Ok(2));
    drop(app);
    assert_eq!(bridge.entity(MODEL, |_cx| 0).err(), Some(BridgeError::AppReleased));
    assert_eq!(
        bridge.update_entity(&handle, |state, _cx| *state),
        Err(BridgeError::AppReleased)
    );
    assert_eq!(bridge.update_global(THEME, |global, _app| *global), Err(BridgeError::AppReleased));
}

#[test]
fn the_bridge_reads_globals_and_windows() {
    let app: App<i64, Quiet> = App::new();
    let window = with(&app, |cx: &mut Runtime| {
        cx.set_global(THEME, 11).unwrap();
        cx.open_window(22)
    });
    let bridge = app.to_async();
    assert_eq!(bridge.read_global(THEME, |global: &i64, _app: &Runtime| *global), Ok(11));
    assert_eq!(
        bridge.read_global(TypeTag(5), |global: &i64, _app: &Runtime| *global),
        Err(BridgeError::Violation(Violation::GlobalMissing))
    );
    assert_eq!(bridge.read_window(window, |state: &i64, _app: &Runtime| *state), Ok(22));
    assert_eq!(
        bridge.read_window(WindowId(9), |state: &i64, _app: &Runtime| *state),
        Err(BridgeError::WindowNotFound)
    );
    assert_eq!(bridge.update_window(window, |state, app| *state + app.depth() as i64), Ok(23));
    assert_eq!(
        bridge.update_window(WindowId(9), |state, _app| *state),
        Err(BridgeError::WindowNotFound)
    );
    let windowed = AsyncWindowContext::new(bridge.clone(), window);
    assert_eq!(windowed.update(|state, app| (*state, app.windows().is_open(window))), Ok((22, true)));
    drop(app);
    assert_eq!(
        bridge.read_global(THEME, |global: &i64, _app: &Runtime| *global),
        Err(BridgeError::AppReleased)
    );
    assert_eq!(
        bridge.read_window(window, |state: &i64, _app: &Runtime| *state),
        Err(BridgeError::AppReleased)
    );
    assert_eq!(bridge.update_window(window, |state, _app| *state), Err(BridgeError::AppReleased));
    assert_eq!(windowed.update(|state, _app| *state), Err(BridgeError::AppReleased));
}

#[test]
fn a_task_gets_a_bridge_of_its_own() {
    let app: App<i64, Quiet> = App::new();
    let bridge = app.to_async();
    let task = bridge.spawn(|own| move || own.update(|cx: &mut Runtime| cx.open_window(1)));
    let run = task.ok().expect("the runtime is live");
    assert_eq!(run(), Ok(WindowId(0)));
    assert_eq!(with(&app, |cx: &mut Runtime| cx.windows().is_open(WindowId(0))), true);
    drop(app);
    let mut started = false;
    let late = bridge.spawn(|_own| {
        started = true;
    });
    assert_eq!(late, Err(BridgeError::AppReleased));
    assert!(!started);
}

#[test]
fn a_window_bridge_creates_and_updates_entities_while_its_window_is_open() {
    let app: App<i64, Quiet> = App::new();
    let window = with(&app, |cx: &mut Runtime| cx.open_window(20));
    let mut bridge = AsyncWindowContext::new(app.to_async(), window);
    let handle = bridge.entity(TypeTag(1), |_cx| 5).unwrap().unwrap();
    assert_eq!(with(&app, |cx: &mut Runtime| *cx.entities().read(&handle).unwrap()), 5);
    let out = bridge.update_entity(&handle, |state, cx| {
        *state += 1;
        cx.notify();
        *state * 10
    });
    assert_eq!(out, Ok(Ok(60)));
    assert_eq!(with(&app, |cx: &mut Runtime| *cx.entities().read(&handle).unwrap()), 6);
    assert_eq!(with(&app, |cx: &mut Runtime| cx.pending_effects()), 0);
    let lease = with(&app, |cx: &mut Runtime| cx.lease(&handle)).unwrap();
    let busy = bridge.update_entity(&handle, |state, _cx| *state);
    assert_eq!(busy, Ok(Err(Violation::Absent)));
    with(&app, |cx: &mut Runtime| cx.end_lease(lease)).unwrap();
    assert_eq!(bridge.update_entity(&handle, |state, _cx| *state), Ok(Ok(6)));
}

#[test]
fn a_window_bridge_reads_and_updates_globals_while_its_window_is_open() {
    let app: App<i64, Quiet> = App::new();
    let window = with(&app, |cx: &mut Runtime| cx.open_window(20));
    let mut bridge = AsyncWindowContext::new(app.to_async(), window);
    assert_eq!(
        bridge.read_global(TypeTag(7), |global: &i64, _app: &Runtime| *global),
        Ok(Err(Violation::GlobalMissing))
    );
    assert_eq!(
        bridge.update_global(TypeTag(7), |global, _app| *global),
        Ok(Err(Violation::GlobalMissing))
    );
    with(&app, |cx: &mut Runtime| cx.set_global(TypeTag(7), 70)).unwrap();
    let out = bridge.update_global(TypeTag(7), |global, app| {
        *global += 1;
        app.globals().get(TypeTag(7)).err()
    });
    assert_eq!(out, Ok(Ok(Some(Violation::GlobalAbsent))));
    assert_eq!(
        bridge.read_global(TypeTag(7), |global: &i64, app: &Runtime| (*global, app.depth())),
        Ok(Ok((71, 0)))
    );
}

#[test]
fn a_window_bridge_fails_without_its_window_or_its_runtime() {
    let app: App<i64, Quiet> = App::new();
    let window = with(&app, |cx: &mut Runtime| cx.open_window(20));
    let mut bridge = AsyncWindowContext::new(app.to_async(), window);
    with(&app, |cx: &mut Runtime| cx.set_global(TypeTag(7), 70)).unwrap();
    let handle = bridge.entity(TypeTag(1), |_cx| 5).unwrap().unwrap();
    with(&app, |cx: &mut Runtime| cx.close_window(window)).unwrap();
    let mut ran = false;
    let built = bridge.entity(TypeTag(1), |_cx| {
        ran = true;
        6
    });
    assert_eq!(built.err(), Some(BridgeError::WindowNotFound));
    assert_eq!(
        bridge.update_entity(&handle, |state, _cx| {
            ran = true;
            *state
        }),
        Err(BridgeError::WindowNotFound)
    );
    assert_eq!(
        bridge.update_global(TypeTag(7), |global, _app| {
            ran = true;
            *global
        }),
        Err(BridgeError::WindowNotFound)
    );
    assert_eq!(
        bridge.read_global(TypeTag(7), |global: &i64, _app: &Runtime| *global),
        Err(BridgeError::WindowNotFound)
    );
    assert!(!ran);
    assert!(with(&app, |cx: &mut Runtime| cx.entities().is_live(EntityId(0))));
    assert!(!with(&app, |cx: &mut Runtime| cx.entities().is_live(EntityId(1))));
    drop(app);
    assert_eq!(bridge.entity(TypeTag(1), |_cx| 6).err(), Some(BridgeError::AppReleased));
    assert_eq!(bridge.update_entity(&handle, |state, _cx| *state), Err(BridgeError::AppReleased));
    assert_eq!(
        bridge.update_global(TypeTag(7), |global, _app| *global),
        Err(BridgeError::AppReleased)
    );
    assert_eq!(
        bridge.read_global(TypeTag(7), |global: &i64, _app: &Runtime| *global),
        Err(BridgeError::AppReleased)
    );
}
