use gpui2::{
    App, AppContext, AsyncAppContext, AsyncWindowContext, BridgeError, Callback, EntityId, Handle,
    ModelContext, TypeTag, Violation, WindowId,
};

/// A callback that is told apart by its name and does nothing.
#[derive(Clone, Debug, PartialEq)]
struct Named(&'static str);

type Runtime = AppContext<i64, Named>;

impl Callback<i64> for Named {
    fn on_notify(&self, _: &mut i64, _: &Handle, _: &mut ModelContext<'_, i64, Named>) {}

    fn on_event(&self, _: &mut i64, _: &Handle, _: &i64, _: &mut ModelContext<'_, i64, Named>) {}

    fn on_release(&self, _: &mut i64, _: &mut Runtime) {}

    fn on_observed_release(&self, _: &mut i64, _: &mut i64, _: &mut ModelContext<'_, i64, Named>) {}

    fn on_defer(self, _: &mut Runtime) {}
}

fn open_window(app: &App<i64, Named>) -> WindowId {
    app.update(|cx: &mut Runtime| cx.open_window(0)).unwrap()
}

#[test]
fn the_bridge_reaches_a_live_runtime() {
    let app: App<i64, Named> = App::new();
    let bridge = app.to_async();
    let id = bridge.update(|cx: &mut Runtime| {
        let slot = cx.reserve(TypeTag(1));
        let handle = cx.insert(slot, 5).unwrap();
        handle.entity_id()
    });
    assert_eq!(id, Ok(EntityId(0)));
    let live = bridge.update(|cx: &mut Runtime| cx.entities().is_live(EntityId(0)));
    assert_eq!(live, Ok(true));
    assert_eq!(app.update(|cx: &mut Runtime| cx.entities().strong_count(EntityId(0))), Ok(1));
}

#[test]
fn the_bridge_reports_a_released_runtime() {
    let app: App<i64, Named> = App::new();
    let mut bridge = app.to_async();
    let copy = bridge.clone();
    assert_eq!(bridge.refresh(), Ok(()));
    drop(app);
    let mut ran = false;
    let result = bridge.update(|_cx: &mut Runtime| {
        ran = true;
        1
    });
    assert_eq!(result, Err(BridgeError::AppReleased));
    assert!(!ran);
    assert_eq!(bridge.refresh(), Err(BridgeError::AppReleased));
    assert_eq!(copy.update(|_cx: &mut Runtime| 2), Err(BridgeError::AppReleased));
}

#[test]
fn a_refresh_through_the_bridge_marks_the_runtime() {
    let app: App<i64, Named> = App::new();
    let mut bridge = app.to_async();
    assert_eq!(app.update(|cx: &mut Runtime| cx.take_refresh()), Ok(false));
    assert_eq!(bridge.refresh(), Ok(()));
    assert_eq!(app.update(|cx: &mut Runtime| cx.take_refresh()), Ok(true));
}

#[test]
fn a_copy_of_the_bridge_leads_to_the_same_runtime() {
    let app: App<i64, Named> = App::new();
    let bridge = app.to_async();
    let copy: AsyncAppContext<i64, Named> = bridge.clone();
    bridge.update(|cx: &mut Runtime| cx.set_global(TypeTag(3), 30).unwrap()).unwrap();
    let seen = copy.update(|cx: &mut Runtime| *cx.globals().get(TypeTag(3)).unwrap());
    assert_eq!(seen, Ok(30));
}

#[test]
fn a_bridge_update_flushes_what_it_queued_before_it_returns() {
    let app: App<i64, Named> = App::new();
    let bridge = app.to_async();
    let seen = bridge.update(|cx: &mut Runtime| {
        cx.notify(EntityId(4));
        cx.defer(Named("later"));
        (cx.pending_effects(), cx.depth())
    });
    assert_eq!(seen, Ok((2, 1)));
    assert_eq!(app.update(|cx: &mut Runtime| (cx.pending_effects(), cx.depth())), Ok((0, 1)));
    let owned = app.update(|cx: &mut Runtime| {
        cx.notify(EntityId(4));
        cx.pending_effects()
    });
    assert_eq!(owned, Ok(1));
    assert_eq!(bridge.update(|cx: &mut Runtime| cx.pending_effects()), Ok(0));
}

#[test]
fn a_bridge_call_within_a_bridge_call_fails_and_does_not_wait() {
    let app: App<i64, Named> = App::new();
    let window = open_window(&app);
    let bridge = app.to_async();
    let mut copy = bridge.clone();
    let mut windowed = AsyncWindowContext::new(bridge.clone(), window);
    let mut ran = false;
    let outcome = bridge.update(|_cx: &mut Runtime| {
        let nested = copy.update(|_cx: &mut Runtime| {
            ran = true;
            1
        });
        assert_eq!(nested, Err(BridgeError::Locked));
        assert_eq!(app.update(|_cx: &mut Runtime| 2), Err(BridgeError::Locked));
        assert_eq!(copy.refresh(), Err(BridgeError::Locked));
        assert_eq!(
            copy.read_window(window, |state: &i64, _cx: &Runtime| *state),
            Err(BridgeError::Locked)
        );
        assert_eq!(
            copy.update_window(window, |state: &mut i64, _cx: &mut Runtime| *state),
            Err(BridgeError::Locked)
        );
        assert_eq!(copy.entity(TypeTag(1), |_cx| 3).err(), Some(BridgeError::Locked));
        assert_eq!(
            copy.read_global(TypeTag(1), |global: &i64, _cx: &Runtime| *global),
            Err(BridgeError::Locked)
        );
        assert_eq!(
            copy.update_global(TypeTag(1), |global: &mut i64, _cx: &mut Runtime| *global),
            Err(BridgeError::Locked)
        );
        assert_eq!(windowed.on_next_frame(Named("draw")), Err(BridgeError::Locked));
        assert_eq!(windowed.refresh(), Err(BridgeError::Locked));
        assert_eq!(
            windowed.update(|state: &mut i64, _cx: &mut Runtime| *state),
            Err(BridgeError::Locked)
        );
        assert_eq!(
            windowed.read_global(TypeTag(1), |global: &i64, _cx: &Runtime| *global),
            Err(BridgeError::Locked)
        );
        7
    });
    assert_eq!(outcome, Ok(7));
    assert!(!ran);
    assert_eq!(copy.update(|cx: &mut Runtime| cx.entities().is_live(EntityId(0))), Ok(false));
    assert_eq!(copy.refresh(), Ok(()));
    assert_eq!(BridgeError::Locked.message(), "app is in use");
}

#[test]
fn an_update_of_an_entity_within_its_own_update_through_the_bridge_fails() {
    let app: App<i64, Named> = App::new();
    let mut bridge = app.to_async();
    let mut copy = bridge.clone();
    let handle = bridge.entity(TypeTag(1), |_cx| 5).unwrap();
    let again = app.update(|cx: &mut Runtime| cx.upgrade(&handle.downgrade())).unwrap().unwrap();
    let mut ran = false;
    let outcome = bridge.update_entity(&handle, |state, cx| {
        let through_the_bridge = copy.update_entity(&again, |inner, _cx| {
            ran = true;
            *inner
        });
        assert_eq!(through_the_bridge, Err(BridgeError::Locked));
        let direct = cx.update_entity(&again, |inner, _cx| {
            ran = true;
            *inner
        });
        assert_eq!(direct, Err(Violation::Absent));
        *state += 1;
        *state
    });
    assert_eq!(outcome, Ok(6));
    assert!(!ran);
    assert_eq!(app.update(|cx: &mut Runtime| *cx.entities().read(&handle).unwrap()), Ok(6));
}

#[test]
fn the_window_bridge_fails_when_the_window_is_closed() {
    let app: App<i64, Named> = App::new();
    let window = open_window(&app);
    let mut bridge = AsyncWindowContext::new(app.to_async(), window);
    assert_eq!(bridge.window_id(), window);
    assert_eq!(bridge.app().update(|cx: &mut Runtime| cx.windows().is_open(window)), Ok(true));
    assert_eq!(bridge.on_next_frame(Named("draw")), Ok(true));
    assert_eq!(bridge.on_next_frame(Named("again")), Ok(false));
    assert_eq!(
        app.update(|cx: &mut Runtime| cx.take_frame_callbacks(window)),
        Ok(vec![Named("draw"), Named("again")])
    );
    app.update(|cx: &mut Runtime| cx.close_window(window)).unwrap().unwrap();
    assert_eq!(
        bridge.app().read_window(window, |_state: &i64, _cx: &Runtime| ()),
        Err(BridgeError::WindowNotFound)
    );
    assert_eq!(bridge.on_next_frame(Named("late")), Err(BridgeError::WindowNotFound));
    assert_eq!(bridge.refresh(), Ok(()));
    assert_eq!(bridge.app().update(|cx: &mut Runtime| cx.depth()), Ok(1));
}

#[test]
fn the_window_bridge_reports_a_released_runtime() {
    let app: App<i64, Named> = App::new();
    let window = open_window(&app);
    let mut bridge = AsyncWindowContext::new(app.to_async(), window);
    drop(app);
    assert_eq!(bridge.app().update(|_cx: &mut Runtime| 1), Err(BridgeError::AppReleased));
    assert_eq!(bridge.on_next_frame(Named("late")), Err(BridgeError::AppReleased));
    assert_eq!(bridge.refresh(), Err(BridgeError::AppReleased));
}

#[test]
fn failures_have_their_messages() {
    assert_eq!(BridgeError::AppReleased.message(), "app was released");
    assert_eq!(BridgeError::WindowNotFound.message(), "window not found");
    assert_eq!(
        BridgeError::Violation(Violation::Absent).message(),
        "entity is absent from its slot"
    );
    assert_eq!(Violation::Released.message(), "entity was released");
    assert_eq!(Violation::TypeMismatch.message(), "invalid entity type");
    assert_eq!(Violation::NotReserved.message(), "slot is not reserved");
    assert_eq!(Violation::NotLeased.message(), "entity is not leased");
    assert_eq!(Violation::GlobalMissing.message(), "no global of this type");
    assert_eq!(Violation::GlobalAbsent.message(), "global is absent from its slot");
    assert_eq!(Violation::GlobalNotLeased.message(), "global is not leased");
    assert_eq!(Violation::EventTypeMismatch.message(), "invalid event type");
    assert_eq!(Violation::TooManyHandles.message(), "too many handles to one entity");
    assert_eq!(Violation::TooManyUpdates.message(), "updates are nested too deeply");
    assert_eq!(Violation::TooManyEntities.message(), "entity identifiers are used up");
    assert_eq!(Violation::TooManyEffects.message(), "too many effects in one flush");
}

#[test]
fn the_window_bridge_goes_through_the_bridge_it_was_made_with() {
    let app: App<i64, Named> = App::new();
    let other: App<i64, Named> = App::new();
    other.update(|cx: &mut Runtime| cx.set_global(TypeTag(1), 5).unwrap()).unwrap();
    let bridge = AsyncWindowContext::new(other.to_async(), WindowId(0));
    let seen = bridge.app().update(|cx: &mut Runtime| cx.globals().has(TypeTag(1)));
    assert_eq!(seen, Ok(true));
    assert_eq!(app.update(|cx: &mut Runtime| cx.globals().has(TypeTag(1))), Ok(false));
}
