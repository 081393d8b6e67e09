use crate::app::AppContext;
use crate::delivery::Callback;
use crate::entity::{Handle, TypeTag};
use crate::error::{BridgeError, Violation};
use crate::model_context::ModelContext;
use crate::state::AppState;
use crate::update::{changed_by, read_from, updated_by, was_built};
use crate::window::WindowId;
use parking_lot::{Mutex, MutexGuard};
use std::sync::{Arc, Weak};
use vstd::prelude::*;

verus! {

/// The mutex of an outside crate, `parking_lot::Mutex`, which is
/// `lock_api::Mutex` over parking_lot's raw mutex. Nothing is known of what
/// a value of it holds.
#[verifier::external_type_specification]
#[verifier::external_body]
#[verifier::reject_recursive_types(R)]
#[verifier::reject_recursive_types(T)]
pub struct ExMutex<R, T: ?Sized>(parking_lot::lock_api::Mutex<R, T>);

/// The raw mutex of `parking_lot`, the first parameter of its `Mutex`.
#[verifier::external_type_specification]
#[verifier::external_body]
pub struct ExRawMutex(parking_lot::RawMutex);

/// The owner of a runtime that is shared between threads. The runtime lives
/// as long as one owner does.
#[verifier::reject_recursive_types(V)]
#[verifier::reject_recursive_types(C)]
pub struct App<V, C> {
    shared: Arc<Mutex<AppContext<V, C>>>,
}

/// A handle to a shared runtime that does not keep it alive. It can be
/// copied and sent to other threads and tasks; every use of it finds out
/// anew whether the runtime is still there. A call that reaches the runtime
/// takes its lock for the time of the call and never waits for it: while
/// one call is under way, every other fails with `Locked`, on whichever
/// thread it is made.
///
/// It holds a `std::sync::Weak` to the mutex that guards the runtime.
#[verifier::external_body]
#[verifier::reject_recursive_types(V)]
#[verifier::reject_recursive_types(C)]
pub struct AsyncAppContext<V, C> {
    shared: Weak<Mutex<AppContext<V, C>>>,
}

/// The runtime, locked. The lock is given up when the guard is dropped.
///
/// It holds the `MutexGuard` of `parking_lot`.
#[verifier::external_body]
#[verifier::reject_recursive_types(V)]
#[verifier::reject_recursive_types(C)]
pub struct AppGuard<'a, V, C> {
    guard: MutexGuard<'a, AppContext<V, C>>,
}

/// `parking_lot::Mutex::new`: a mutex around the runtime, unlocked.
#[verifier::external_body]
fn guard_runtime<V, C>(app: AppContext<V, C>) -> (mutex: Mutex<AppContext<V, C>>) {
    Mutex::new(app)
}

/// `std::sync::Arc::downgrade`: a weak pointer to the shared runtime.
#[verifier::external_body]
fn downgrade<V, C>(shared: &Arc<Mutex<AppContext<V, C>>>) -> (bridge: AsyncAppContext<V, C>) {
    AsyncAppContext { shared: Arc::downgrade(shared) }
}

/// `std::sync::Weak::upgrade`: the shared runtime if an owner of it is left.
/// Whether one is left depends on what other threads have done, so nothing
/// is claimed of the result.
#[verifier::external_body]
fn upgrade<V, C>(bridge: &AsyncAppContext<V, C>) -> (shared: Option<Arc<Mutex<AppContext<V, C>>>>) {
    bridge.shared.upgrade()
}

/// `parking_lot::Mutex::try_lock`: takes the lock if it is free, and does
/// not wait if it is not. Whether it is free depends on what this thread
/// and others are doing, and nothing is known of the runtime found behind
/// the lock, so nothing is claimed of the result.
#[verifier::external_body]
fn try_lock<'a, V, C>(shared: &'a Arc<Mutex<AppContext<V, C>>>) -> (guard: Option<
    AppGuard<'a, V, C>,
>) {
    match shared.try_lock() {
        Some(guard) => Some(AppGuard { guard }),
        None => None,
    }
}

/// `DerefMut::deref_mut` of the guard: the runtime behind the lock.
#[verifier::external_body]
fn locked<'a, 'b, V, C>(guard: &'a mut AppGuard<'b, V, C>) -> (app: &'a mut AppContext<V, C>) {
    &mut *guard.guard
}

/// What a bridge call makes of the attempt to reach the runtime: the
/// runtime, or the failure that it was released.
pub fn resolved<T>(found: Option<T>) -> (r: Result<T, BridgeError>)
    ensures
        r == match found {
            Some(shared) => Ok::<T, BridgeError>(shared),
            None => Err::<T, BridgeError>(BridgeError::AppReleased),
        },
{
    match found {
        Some(shared) => Ok(shared),
        None => Err(BridgeError::AppReleased),
    }
}

/// What a bridge call makes of the attempt to take the lock: the guard, or
/// the failure that the runtime is in use. A call made through the bridge
/// while another is under way, as from within the closure of that other
/// call, fails at this point and does not wait.
pub fn unlocked<T>(guard: Option<T>) -> (r: Result<T, BridgeError>)
    ensures
        r == match guard {
            Some(guard) => Ok::<T, BridgeError>(guard),
            None => Err::<T, BridgeError>(BridgeError::Locked),
        },
{
    match guard {
        Some(guard) => Ok(guard),
        None => Err(BridgeError::Locked),
    }
}

/// `out` is what `update` returned from a run on some state of the runtime.
pub open spec fn returned_by<V, C, R, F: FnOnce(&mut AppContext<V, C>) -> R>(
    update: F,
    out: R,
) -> bool {
    exists|app: &mut AppContext<V, C>| update.ensures((app,), out)
}

/// `out` is what `read` returned when it was run on a value with a runtime
/// that fits `fits`.
pub open spec fn read_where<V, C, R, F: FnOnce(&V, &AppContext<V, C>) -> R>(
    read: F,
    fits: spec_fn(AppState<V, C>) -> bool,
    out: R,
) -> bool {
    exists|value: V, state: AppState<V, C>| fits(state) && #[trigger] read_from(
        read,
        value,
        state,
        out,
    )
}

/// `task` is what `start` returned when it was handed a bridge.
pub open spec fn started_by<V, C, Fut, F: FnOnce(AsyncAppContext<V, C>) -> Fut>(
    start: F,
    task: Fut,
) -> bool {
    exists|bridge: AsyncAppContext<V, C>| start.ensures((bridge,), task)
}

impl<V, C> App<V, C> {
    /// A fresh runtime with one owner.
    pub fn new() -> (app: Self) {
        App { shared: Arc::new(guard_runtime(AppContext::new())) }
    }

    /// A bridge to this runtime for other threads and tasks.
    pub fn to_async(&self) -> (bridge: AsyncAppContext<V, C>) {
        downgrade(&self.shared)
    }

}

impl<V, C: Callback<V>> App<V, C> {
    /// Takes the lock, runs `update` as an update of the runtime, as
    /// `AppContext::update` does, and gives the lock up: what `update`
    /// queues is flushed before the call returns. Fails with `Locked`, and
    /// does not run `update`, when the runtime is in use.
    pub fn update<R, F: FnOnce(&mut AppContext<V, C>) -> R>(&self, update: F) -> (r: Result<
        R,
        BridgeError,
    >)
        requires
            forall|app: &mut AppContext<V, C>| update.requires((app,)),
        ensures
            r matches Ok(out) ==> returned_by(update, out),
            r matches Err(e) ==> e == BridgeError::Locked || e is Violation,
            r == Err::<R, BridgeError>(BridgeError::Locked) || exists|
                app: &mut AppContext<V, C>,
                inner: Result<R, Violation>,
            |
                {
                    &&& #[trigger] call_ensures(
                        AppContext::<V, C>::update::<R, F>,
                        (app, update),
                        inner,
                    )
                    &&& match inner {
                        Ok(out) => r == Ok::<R, BridgeError>(out),
                        Err(e) => r == Err::<R, BridgeError>(BridgeError::Violation(e)),
                    }
                },
    {
        let mut guard = match unlocked(try_lock(&self.shared)) {
            Err(e) => return Err(e),
            Ok(guard) => guard,
        };
        let app = locked(&mut guard);
        match app.update(update) {
            Ok(out) => Ok(out),
            Err(violation) => Err(BridgeError::Violation(violation)),
        }
    }
}

impl<V, C: Callback<V>> AsyncAppContext<V, C> {
    /// Reaches the runtime if it is still there, takes the lock, runs
    /// `update` as an update of the runtime and gives the lock up before
    /// returning. Fails, and does not run `update`, with `AppReleased` when
    /// the last owner of the runtime is gone and with `Locked` when the
    /// runtime is in use.
    pub fn update<R, F: FnOnce(&mut AppContext<V, C>) -> R>(&self, update: F) -> (r: Result<
        R,
        BridgeError,
    >)
        requires
            forall|app: &mut AppContext<V, C>| update.requires((app,)),
        ensures
            r matches Ok(out) ==> returned_by(update, out),
            r matches Err(e) ==> e.is_unreached() || e is Violation,
            r == Err::<R, BridgeError>(BridgeError::AppReleased) || r == Err::<R, BridgeError>(
                BridgeError::Locked,
            ) || exists|app: &mut AppContext<V, C>, inner: Result<R, Violation>|
                {
                    &&& #[trigger] call_ensures(
                        AppContext::<V, C>::update::<R, F>,
                        (app, update),
                        inner,
                    )
                    &&& match inner {
                        Ok(out) => r == Ok::<R, BridgeError>(out),
                        Err(e) => r == Err::<R, BridgeError>(BridgeError::Violation(e)),
                    }
                },
    {
        match resolved(upgrade(self)) {
            Err(e) => Err(e),
            Ok(shared) => {
                let owner = App { shared };
                owner.update(update)
            },
        }
    }
}

impl<V, C> AsyncAppContext<V, C> {

    /// Reaches the runtime, takes its lock and reads the global of a type with
    /// `read`. Fails, without running `read`, when the runtime is gone or in use, or
    /// no global of the type is in its table.
    pub fn read_global<R, F: FnOnce(&V, &AppContext<V, C>) -> R>(
        &self,
        type_tag: TypeTag,
        read: F,
    ) -> (r: Result<R, BridgeError>)
        requires
            forall|global: &V, app: &AppContext<V, C>| read.requires((global, app)),
        ensures
            r matches Ok(out) ==> read_where(
                read,
                |state: AppState<V, C>| state.globals.is_leased(type_tag),
                out,
            ),
            r matches Err(e) ==> e.is_unreached() || e is Violation,
            r == Err::<R, BridgeError>(BridgeError::AppReleased) || r == Err::<
                R,
                BridgeError,
            >(BridgeError::Locked) || exists|
                app: &mut AppContext<V, C>,
                inner: Result<R, Violation>,
            |
                {
                    &&& #[trigger] call_ensures(
                        AppContext::<V, C>::read_global::<R, F>,
                        (app, type_tag, read),
                        inner,
                    )
                    &&& match inner {
                        Ok(out) => r == Ok::<R, BridgeError>(out),
                        Err(e) => r == Err::<R, BridgeError>(BridgeError::Violation(e)),
                    }
                },
    {
        match resolved(upgrade(self)) {
            Err(e) => Err(e),
            Ok(shared) => {
                let mut guard = match unlocked(try_lock(&shared)) {
                    Err(e) => return Err(e),
                    Ok(guard) => guard,
                };
                let app = locked(&mut guard);
                let ghost found = app@;
                match app.read_global(type_tag, read) {
                    Ok(out) => {
                        proof {
                            let during = AppState {
                                globals: found.globals.leased(type_tag),
                                ..found
                            };
                            assert(during.globals.is_leased(type_tag));
                            assert(read_from(read, found.globals.value(type_tag), during, out));
                        }
                        Ok(out)
                    },
                    Err(violation) => Err(BridgeError::Violation(violation)),
                }
            },
        }
    }

    /// Reaches the runtime, takes its lock and reads a window with `read`. Fails,
    /// without running `read`, when the runtime is gone or in use, or the window is
    /// not open.
    pub fn read_window<R, F: FnOnce(&V, &AppContext<V, C>) -> R>(&self, window: WindowId, read: F) -> (r:
        Result<R, BridgeError>)
        requires
            forall|state: &V, app: &AppContext<V, C>| read.requires((state, app)),
        ensures
            r matches Ok(out) ==> exists|state: AppState<V, C>|
                state.windows.is_present(window) && #[trigger] read_from(
                    read,
                    state.windows.value(window),
                    state,
                    out,
                ),
            r matches Err(e) ==> e.is_unreached() || e == BridgeError::WindowNotFound
                || e is Violation,
            r == Err::<R, BridgeError>(BridgeError::AppReleased) || r == Err::<
                R,
                BridgeError,
            >(BridgeError::Locked) || exists|app: &AppContext<V, C>|
                #[trigger] call_ensures(
                    AppContext::<V, C>::read_window::<R, F>,
                    (app, window, read),
                    r,
                ),
    {
        match resolved(upgrade(self)) {
            Err(e) => Err(e),
            Ok(shared) => {
                let mut guard = match unlocked(try_lock(&shared)) {
                    Err(e) => return Err(e),
                    Ok(guard) => guard,
                };
                let app = locked(&mut guard);
                let ghost found = app@;
                match app.read_window(window, read) {
                    Ok(out) => {
                        proof {
                            assert(found.windows.is_present(window));
                            assert(read_from(read, found.windows.value(window), found, out));
                        }
                        Ok(out)
                    },
                    Err(e) => Err(e),
                }
            },
        }
    }

    /// Makes a task that carries a bridge of its own: `start` is handed a
    /// copy of this bridge, and what it returns is the task, for the
    /// scheduler to run. Fails, without running `start`, when the runtime is
    /// gone.
    pub fn spawn<Fut, F: FnOnce(AsyncAppContext<V, C>) -> Fut>(&self, start: F) -> (r: Result<
        Fut,
        BridgeError,
    >)
        requires
            start.requires((*self,)),
        ensures
            r matches Ok(task) ==> started_by(start, task) && start.ensures((*self,), task),
            r matches Err(e) ==> e == BridgeError::AppReleased,
    {
        match resolved(upgrade(self)) {
            Err(e) => Err(e),
            Ok(_) => {
                let bridge = self.clone();
                let ghost handed = bridge;
                let task = start(bridge);
                assert(start.ensures((handed,), task));
                Ok(task)
            },
        }
    }

    /// Asks for a refresh of what depends on the runtime: reaches the
    /// runtime, takes its lock and marks it, as `AppContext::refresh` does.
    pub fn refresh(&mut self) -> (r: Result<(), BridgeError>)
        ensures
            r matches Err(e) ==> e.is_unreached(),
            r is Ok ==> exists|app: &mut AppContext<V, C>| #[trigger]
                call_ensures(AppContext::<V, C>::refresh, (app,), ()),
    {
        match resolved(upgrade(self)) {
            Err(e) => Err(e),
            Ok(shared) => {
                let mut guard = match unlocked(try_lock(&shared)) {
                    Err(e) => return Err(e),
                    Ok(guard) => guard,
                };
                let app = locked(&mut guard);
                app.refresh();
                Ok(())
            },
        }
    }
}

/// `out` is what `update` returned when it was run on the entity of `handle`
/// with a context of that entity.
pub open spec fn updated_through<V, C, R, F: FnOnce(&mut V, &mut ModelContext<'_, V, C>) -> R>(
    update: F,
    handle: &Handle,
    out: R,
) -> bool {
    exists|value: V, state: AppState<V, C>| #[trigger]
        updated_by(update, value, handle.id(), handle.type_tag(), state, out)
}

/// `build` was run with a context for the entity of `handle`, of the type
/// `type_tag`.
pub open spec fn built_through<V, C, F: FnOnce(&mut ModelContext<'_, V, C>) -> V>(
    build: F,
    handle: Handle,
    type_tag: TypeTag,
) -> bool {
    handle.type_tag() == type_tag && exists|state: AppState<V, C>| #[trigger]
        was_built(build, handle.id(), type_tag, state)
}

/// `out` is what `update` returned when it was run on a value taken out of
/// the runtime.
pub open spec fn changed_through<V, C, R, F: FnOnce(&mut V, &mut AppContext<V, C>) -> R>(
    update: F,
    out: R,
) -> bool {
    exists|value: V, state: AppState<V, C>| #[trigger] changed_by(update, value, state, out)
}

impl<V, C: Callback<V>> AsyncAppContext<V, C> {
    /// Reaches the runtime, takes its lock and creates an entity in it, as
    /// `AppContext::entity` does. Fails, without running `build`, when the
    /// runtime is gone or in use.
    pub fn entity<F: FnOnce(&mut ModelContext<'_, V, C>) -> V>(
        &mut self,
        type_tag: TypeTag,
        build: F,
    ) -> (r: Result<Handle, BridgeError>)
        requires
            forall|cx: &mut ModelContext<'_, V, C>| build.requires((cx,)),
        ensures
            r matches Ok(handle) ==> built_through(build, handle, type_tag),
            r matches Err(e) ==> e.is_unreached() || e is Violation,
            r == Err::<Handle, BridgeError>(BridgeError::AppReleased) || r == Err::<
                Handle,
                BridgeError,
            >(BridgeError::Locked) || exists|
                app: &mut AppContext<V, C>,
                inner: Result<Handle, Violation>,
            |
                {
                    &&& #[trigger] call_ensures(
                        AppContext::<V, C>::entity::<F>,
                        (app, type_tag, build),
                        inner,
                    )
                    &&& match inner {
                        Ok(handle) => r == Ok::<Handle, BridgeError>(handle),
                        Err(e) => r == Err::<Handle, BridgeError>(BridgeError::Violation(e)),
                    }
                },
    {
        match resolved(upgrade(self)) {
            Err(e) => Err(e),
            Ok(shared) => {
                let mut guard = match unlocked(try_lock(&shared)) {
                    Err(e) => return Err(e),
                    Ok(guard) => guard,
                };
                let app = locked(&mut guard);
                let ghost found = app@;
                match app.entity(type_tag, build) {
                    Ok(handle) => {
                        proof {
                            let reserved = AppState {
                                entities: found.entities.reserved(type_tag),
                                ..found.entered()
                            };
                            assert(was_built(build, handle.id(), type_tag, reserved));
                        }
                        Ok(handle)
                    },
                    Err(violation) => Err(BridgeError::Violation(violation)),
                }
            },
        }
    }

    /// Reaches the runtime, takes its lock and updates an entity in it, as
    /// `AppContext::update_entity` does. Fails, without running `update`,
    /// when the runtime is gone or in use.
    pub fn update_entity<R, F: FnOnce(&mut V, &mut ModelContext<'_, V, C>) -> R>(
        &mut self,
        handle: &Handle,
        update: F,
    ) -> (r: Result<R, BridgeError>)
        requires
            forall|state: &mut V, cx: &mut ModelContext<'_, V, C>| update.requires((state, cx)),
        ensures
            r matches Ok(out) ==> updated_through(update, handle, out),
            r matches Err(e) ==> e.is_unreached() || e is Violation,
            r == Err::<R, BridgeError>(BridgeError::AppReleased) || r == Err::<
                R,
                BridgeError,
            >(BridgeError::Locked) || exists|
                app: &mut AppContext<V, C>,
                inner: Result<R, Violation>,
            |
                {
                    &&& #[trigger] call_ensures(
                        AppContext::<V, C>::update_entity::<R, F>,
                        (app, handle, update),
                        inner,
                    )
                    &&& match inner {
                        Ok(out) => r == Ok::<R, BridgeError>(out),
                        Err(e) => r == Err::<R, BridgeError>(BridgeError::Violation(e)),
                    }
                },
    {
        match resolved(upgrade(self)) {
            Err(e) => Err(e),
            Ok(shared) => {
                let mut guard = match unlocked(try_lock(&shared)) {
                    Err(e) => return Err(e),
                    Ok(guard) => guard,
                };
                let app = locked(&mut guard);
                let ghost found = app@;
                match app.update_entity(handle, update) {
                    Ok(out) => {
                        proof {
                            let leased = AppState {
                                entities: found.entities.leased(handle.id()),
                                ..found.entered()
                            };
                            assert(updated_by(
                                update,
                                found.entities.value(handle.id()),
                                handle.id(),
                                handle.type_tag(),
                                leased,
                                out,
                            ));
                        }
                        Ok(out)
                    },
                    Err(violation) => Err(BridgeError::Violation(violation)),
                }
            },
        }
    }

    /// Reaches the runtime, takes its lock and updates the global of a type in
    /// it, as `AppContext::update_global` does. Fails, without running
    /// `update`, when the runtime is gone or in use.
    pub fn update_global<R, F: FnOnce(&mut V, &mut AppContext<V, C>) -> R>(
        &mut self,
        type_tag: TypeTag,
        update: F,
    ) -> (r: Result<R, BridgeError>)
        requires
            forall|global: &mut V, app: &mut AppContext<V, C>| update.requires((global, app)),
        ensures
            r matches Ok(out) ==> changed_through(update, out),
            r matches Err(e) ==> e.is_unreached() || e is Violation,
            r == Err::<R, BridgeError>(BridgeError::AppReleased) || r == Err::<
                R,
                BridgeError,
            >(BridgeError::Locked) || exists|
                app: &mut AppContext<V, C>,
                inner: Result<R, Violation>,
            |
                {
                    &&& #[trigger] call_ensures(
                        AppContext::<V, C>::update_global::<R, F>,
                        (app, type_tag, update),
                        inner,
                    )
                    &&& match inner {
                        Ok(out) => r == Ok::<R, BridgeError>(out),
                        Err(e) => r == Err::<R, BridgeError>(BridgeError::Violation(e)),
                    }
                },
    {
        match resolved(upgrade(self)) {
            Err(e) => Err(e),
            Ok(shared) => {
                let mut guard = match unlocked(try_lock(&shared)) {
                    Err(e) => return Err(e),
                    Ok(guard) => guard,
                };
                let app = locked(&mut guard);
                let ghost found = app@;
                match app.update_global(type_tag, update) {
                    Ok(out) => {
                        proof {
                            let leased = AppState {
                                globals: found.globals.leased(type_tag),
                                ..found.entered()
                            };
                            assert(changed_by(update, found.globals.value(type_tag), leased, out));
                        }
                        Ok(out)
                    },
                    Err(violation) => Err(BridgeError::Violation(violation)),
                }
            },
        }
    }

    /// Reaches the runtime, takes its lock and updates a window in it, as
    /// `AppContext::update_window` does. Fails with `AppReleased` when the
    /// runtime is gone, with `Locked` when it is in use and with `WindowNotFound` when the window is not
    /// open; `update` is not run then.
    pub fn update_window<R, F: FnOnce(&mut V, &mut AppContext<V, C>) -> R>(
        &self,
        window: WindowId,
        update: F,
    ) -> (r: Result<R, BridgeError>)
        requires
            forall|state: &mut V, app: &mut AppContext<V, C>| update.requires((state, app)),
        ensures
            r matches Ok(out) ==> changed_through(update, out),
            r matches Err(e) ==> e.is_unreached() || e == BridgeError::WindowNotFound
                || e is Violation,
            r == Err::<R, BridgeError>(BridgeError::AppReleased) || r == Err::<
                R,
                BridgeError,
            >(BridgeError::Locked) || exists|
                app: &mut AppContext<V, C>,
            |
                #[trigger] call_ensures(
                    AppContext::<V, C>::update_window::<R, F>,
                    (app, window, update),
                    r,
                ),
    {
        match resolved(upgrade(self)) {
            Err(e) => Err(e),
            Ok(shared) => {
                let mut guard = match unlocked(try_lock(&shared)) {
                    Err(e) => return Err(e),
                    Ok(guard) => guard,
                };
                let app = locked(&mut guard);
                let ghost found = app@;
                match app.update_window(window, update) {
                    Ok(out) => {
                        proof {
                            let leased = AppState {
                                windows: found.windows.with_state(window, None),
                                ..found.entered()
                            };
                            assert(changed_by(update, found.windows.value(window), leased, out));
                        }
                        Ok(out)
                    },
                    Err(e) => Err(e),
                }
            },
        }
    }
}

impl<V, C> Clone for AsyncAppContext<V, C> {
    /// `std::sync::Weak::clone`: another handle to the same runtime. The
    /// copy points to the same allocation, so it stands for the same
    /// bridge.
    #[verifier::external_body]
    fn clone(&self) -> (bridge: Self)
        ensures
            bridge == *self,
    {
        AsyncAppContext { shared: self.shared.clone() }
    }
}

/// A bridge to one window of a shared runtime.
#[verifier::reject_recursive_types(V)]
#[verifier::reject_recursive_types(C)]
pub struct AsyncWindowContext<V, C> {
    app: AsyncAppContext<V, C>,
    window: WindowId,
}

impl<V, C> AsyncWindowContext<V, C> {
    /// The window that the bridge leads to.
    pub closed spec fn window(&self) -> WindowId {
        self.window
    }

    /// The bridge to the runtime that this bridge goes through.
    pub closed spec fn bridge(&self) -> AsyncAppContext<V, C> {
        self.app
    }

    pub fn new(app: AsyncAppContext<V, C>, window: WindowId) -> (bridge: Self)
        ensures
            bridge.window() == window,
            bridge.bridge() == app,
    {
        AsyncWindowContext { app, window }
    }

    pub fn window_id(&self) -> (id: WindowId)
        ensures
            id == self.window(),
    {
        self.window
    }

    /// The bridge to the runtime as a whole: the one this bridge was made
    /// with.
    pub fn app(&self) -> (app: &AsyncAppContext<V, C>)
        ensures
            *app == self.bridge(),
    {
        &self.app
    }

    /// Lines up a callback for the next frame of the window. Returns
    /// whether it is the first to wait.
    pub fn on_next_frame(&mut self, callback: C) -> (r: Result<bool, BridgeError>)
        ensures
            r matches Err(e) ==> e.is_unreached() || e == BridgeError::WindowNotFound,
            r == Err::<bool, BridgeError>(BridgeError::AppReleased) || r == Err::<
                bool,
                BridgeError,
            >(BridgeError::Locked) || exists|
                app: &mut AppContext<V, C>,
            |
                #[trigger] call_ensures(
                    AppContext::<V, C>::on_next_frame,
                    (app, old(self).window(), callback),
                    r,
                ),
            final(self).window() == old(self).window(),
            final(self).bridge() == old(self).bridge(),
    {
        let window = self.window_id();
        match resolved(upgrade(&self.app)) {
            Err(e) => Err(e),
            Ok(shared) => {
                let mut guard = match unlocked(try_lock(&shared)) {
                    Err(e) => return Err(e),
                    Ok(guard) => guard,
                };
                let app = locked(&mut guard);
                app.on_next_frame(window, callback)
            },
        }
    }

    /// Asks for a refresh of what depends on the runtime.
    pub fn refresh(&mut self) -> (r: Result<(), BridgeError>)
        ensures
            r matches Err(e) ==> e.is_unreached(),
            r is Ok ==> exists|app: &mut AppContext<V, C>| #[trigger]
                call_ensures(AppContext::<V, C>::refresh, (app,), ()),
            final(self).window() == old(self).window(),
    {
        self.app.refresh()
    }
}

impl<V, C: Callback<V>> AsyncWindowContext<V, C> {
    /// Reaches the runtime, takes its lock and updates the window, as
    /// `AppContext::update_window` does. Fails with `AppReleased` when the
    /// runtime is gone, with `Locked` when it is in use and with `WindowNotFound` when the window is not
    /// open; `update` is not run then.
    pub fn update<R, F: FnOnce(&mut V, &mut AppContext<V, C>) -> R>(&self, update: F) -> (r:
        Result<R, BridgeError>)
        requires
            forall|state: &mut V, app: &mut AppContext<V, C>| update.requires((state, app)),
        ensures
            r matches Ok(out) ==> changed_through(update, out),
            r matches Err(e) ==> e.is_unreached() || e == BridgeError::WindowNotFound
                || e is Violation,
            r == Err::<R, BridgeError>(BridgeError::AppReleased) || r == Err::<
                R,
                BridgeError,
            >(BridgeError::Locked) || exists|
                app: &mut AppContext<V, C>,
            |
                #[trigger] call_ensures(
                    AppContext::<V, C>::update_window::<R, F>,
                    (app, self.window(), update),
                    r,
                ),
    {
        let window = self.window_id();
        self.app.update_window(window, update)
    }
}

impl<V, C: Callback<V>> AsyncWindowContext<V, C> {
    /// Creates an entity in the runtime of the window, within an update of
    /// the window. Fails with `AppReleased` when the runtime is gone,
    /// with `Locked` when it is in use and with `WindowNotFound` when the window is not open; `build` is not run
    /// then. What the runtime itself refuses is returned inside `Ok`.
    pub fn entity<F: FnOnce(&mut ModelContext<'_, V, C>) -> V>(
        &mut self,
        type_tag: TypeTag,
        build: F,
    ) -> (r: Result<Result<Handle, Violation>, BridgeError>)
        requires
            forall|cx: &mut ModelContext<'_, V, C>| build.requires((cx,)),
        ensures
            r matches Ok(Ok(handle)) ==> built_through(build, handle, type_tag),
            r matches Ok(inner) ==> exists|app: &mut AppContext<V, C>| #[trigger]
                call_ensures(AppContext::<V, C>::entity::<F>, (app, type_tag, build), inner),
            r matches Err(e) ==> e.is_unreached() || e == BridgeError::WindowNotFound
                || e is Violation,
    {
        let created = |window: &mut V, app: &mut AppContext<V, C>| -> (inner: Result<
            Handle,
            Violation,
        >)
            ensures
                inner matches Ok(handle) ==> built_through(build, handle, type_tag),
                exists|runtime: &mut AppContext<V, C>| #[trigger]
                    call_ensures(AppContext::<V, C>::entity::<F>, (runtime, type_tag, build), inner),
            {
                let ghost found = app@;
                let inner = app.entity(type_tag, build);
                proof {
                    if inner is Ok {
                        let reserved = AppState {
                            entities: found.entities.reserved(type_tag),
                            ..found.entered()
                        };
                        assert(was_built(build, inner->Ok_0.id(), type_tag, reserved));
                    }
                }
                inner
            };
        let r = self.app.update_window(self.window, created);
        proof {
            if r is Ok {
                let inner = r->Ok_0;
                assert(changed_through(created, inner));
            }
        }
        r
    }

    /// Updates an entity in the runtime of the window, within an update of
    /// the window. Fails as `entity` does; what the runtime itself refuses
    /// is returned inside `Ok`.
    pub fn update_entity<R, F: FnOnce(&mut V, &mut ModelContext<'_, V, C>) -> R>(
        &mut self,
        handle: &Handle,
        update: F,
    ) -> (r: Result<Result<R, Violation>, BridgeError>)
        requires
            forall|state: &mut V, cx: &mut ModelContext<'_, V, C>| update.requires((state, cx)),
        ensures
            r matches Ok(Ok(out)) ==> updated_through(update, handle, out),
            r matches Ok(inner) ==> exists|app: &mut AppContext<V, C>| #[trigger]
                call_ensures(AppContext::<V, C>::update_entity::<R, F>, (app, handle, update), inner),
            r matches Err(e) ==> e.is_unreached() || e == BridgeError::WindowNotFound
                || e is Violation,
    {
        let updated = |window: &mut V, app: &mut AppContext<V, C>| -> (inner: Result<R, Violation>)
            ensures
                inner matches Ok(out) ==> updated_through(update, handle, out),
                exists|runtime: &mut AppContext<V, C>| #[trigger]
                    call_ensures(AppContext::<V, C>::update_entity::<R, F>, (runtime, handle, update), inner),
            {
                let ghost found = app@;
                let inner = app.update_entity(handle, update);
                proof {
                    if inner is Ok {
                        let leased = AppState {
                            entities: found.entities.leased(handle.id()),
                            ..found.entered()
                        };
                        assert(updated_by(
                            update,
                            found.entities.value(handle.id()),
                            handle.id(),
                            handle.type_tag(),
                            leased,
                            inner->Ok_0,
                        ));
                    }
                }
                inner
            };
        let r = self.app.update_window(self.window, updated);
        proof {
            if r is Ok {
                let inner = r->Ok_0;
                assert(changed_through(updated, inner));
            }
        }
        r
    }

    /// Updates the global of a type in the runtime of the window, within an
    /// update of the window. Fails as `entity` does; what the runtime itself
    /// refuses is returned inside `Ok`.
    pub fn update_global<R, F: FnOnce(&mut V, &mut AppContext<V, C>) -> R>(
        &mut self,
        type_tag: TypeTag,
        update: F,
    ) -> (r: Result<Result<R, Violation>, BridgeError>)
        requires
            forall|global: &mut V, app: &mut AppContext<V, C>| update.requires((global, app)),
        ensures
            r matches Ok(Ok(out)) ==> changed_through(update, out),
            r matches Ok(inner) ==> exists|app: &mut AppContext<V, C>| #[trigger]
                call_ensures(AppContext::<V, C>::update_global::<R, F>, (app, type_tag, update), inner),
            r matches Err(e) ==> e.is_unreached() || e == BridgeError::WindowNotFound
                || e is Violation,
    {
        let updated = |window: &mut V, app: &mut AppContext<V, C>| -> (inner: Result<R, Violation>)
            ensures
                inner matches Ok(out) ==> changed_through(update, out),
                exists|runtime: &mut AppContext<V, C>| #[trigger]
                    call_ensures(AppContext::<V, C>::update_global::<R, F>, (runtime, type_tag, update), inner),
            {
                let ghost found = app@;
                let inner = app.update_global(type_tag, update);
                proof {
                    if inner is Ok {
                        let leased = AppState {
                            globals: found.globals.leased(type_tag),
                            ..found.entered()
                        };
                        assert(changed_by(
                            update,
                            found.globals.value(type_tag),
                            leased,
                            inner->Ok_0,
                        ));
                    }
                }
                inner
            };
        let r = self.app.update_window(self.window, updated);
        proof {
            if r is Ok {
                let inner = r->Ok_0;
                assert(changed_through(updated, inner));
            }
        }
        r
    }
}

impl<V, C> AsyncWindowContext<V, C> {
    /// Reads the global of a type in the runtime of the window, while the
    /// window is open. Fails with `AppReleased` when the runtime is gone,
    /// with `Locked` when it is in use and with `WindowNotFound` when the window is not open; `read` is not run
    /// then. A global that is missing or out of the table is reported
    /// inside `Ok`.
    pub fn read_global<R, F: FnOnce(&V, &AppContext<V, C>) -> R>(
        &self,
        type_tag: TypeTag,
        read: F,
    ) -> (r: Result<Result<R, Violation>, BridgeError>)
        requires
            forall|global: &V, app: &AppContext<V, C>| read.requires((global, app)),
        ensures
            r matches Ok(Ok(out)) ==> exists|state: AppState<V, C>|
                {
                    &&& state.windows.is_present(self.window())
                    &&& state.globals.lease_refusal(type_tag) is None
                    &&& #[trigger] read_from(read, state.globals.value(type_tag), state, out)
                },
            r matches Ok(Err(e)) ==> e == Violation::GlobalMissing || e
                == Violation::GlobalAbsent,
            r matches Err(e) ==> e.is_unreached() || e == BridgeError::WindowNotFound
                || e is Violation,
    {
        let looked = |window: &V, app: &AppContext<V, C>| -> (inner: Result<R, Violation>)
            ensures
                match inner {
                    Ok(out) => {
                        &&& app@.globals.lease_refusal(type_tag) is None
                        &&& read_from(read, app@.globals.value(type_tag), app@, out)
                    },
                    Err(e) => app@.globals.lease_refusal(type_tag) == Some(e),
                },
            {
                match app.globals().get(type_tag) {
                    Err(e) => Err(e),
                    Ok(global) => {
                        let out = read(global, app);
                        proof {
                            assert(read.ensures((global, app), out));
                            assert(read_from(read, *global, app@, out));
                        }
                        Ok(out)
                    },
                }
            };
        let window = self.window_id();
        let r = self.app.read_window(window, looked);
        proof {
            if r is Ok {
                let inner = r->Ok_0;
                let state = choose|state: AppState<V, C>|
                    state.windows.is_present(window) && #[trigger] read_from(
                        looked,
                        state.windows.value(window),
                        state,
                        inner,
                    );
                let app = choose|app: AppContext<V, C>|
                    app@ == state && looked.ensures((&state.windows.value(window), &app), inner);
                if inner is Ok {
                    assert(read_from(read, state.globals.value(type_tag), state, inner->Ok_0));
                }
            }
        }
        r
    }
}

} // verus!
