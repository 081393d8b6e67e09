use crate::app::AppContext;
use crate::delivery::Callback;
use crate::entity::{EntityId, Handle, TypeTag};
use crate::error::{BridgeError, Violation};
use crate::model_context::ModelContext;
use crate::state::AppState;
use crate::window::WindowId;
use vstd::prelude::*;

verus! {

/// `out` is what `read` returned when it was run on `value` with a runtime
/// in the state `state`.
pub open spec fn read_from<V, C, R, F: FnOnce(&V, &AppContext<V, C>) -> R>(
    read: F,
    value: V,
    state: AppState<V, C>,
    out: R,
) -> bool {
    exists|app: AppContext<V, C>| app@ == state && read.ensures((&value, &app), out)
}

/// `out` is what `update` returned when it was run on a runtime in the
/// state `state`.
pub open spec fn run_on<V, C, R, F: FnOnce(&mut AppContext<V, C>) -> R>(
    update: F,
    state: AppState<V, C>,
    out: R,
) -> bool {
    exists|app: &mut AppContext<V, C>| app@ == state && update.ensures((app,), out)
}

/// `out` is what `update` returned when it was run on `value`, taken out of
/// a runtime, with that runtime in the state `state`.
pub open spec fn changed_by<V, C, R, F: FnOnce(&mut V, &mut AppContext<V, C>) -> R>(
    update: F,
    value: V,
    state: AppState<V, C>,
    out: R,
) -> bool {
    exists|taken: &mut V, app: &mut AppContext<V, C>|
        {
            &&& *taken == value
            &&& app@ == state
            &&& update.ensures((taken, app), out)
        }
}

/// `out` is what `update` returned when it was run on `value` with a context
/// for the entity `id` over a runtime in the state `state`.
pub open spec fn updated_by<V, C, R, F: FnOnce(&mut V, &mut ModelContext<'_, V, C>) -> R>(
    update: F,
    value: V,
    id: EntityId,
    type_tag: TypeTag,
    state: AppState<V, C>,
    out: R,
) -> bool {
    exists|entity: &mut V, cx: &mut ModelContext<'_, V, C>|
        {
            &&& *entity == value
            &&& cx.entity_id == id
            &&& cx.entity_type == type_tag
            &&& cx.app@ == state
            &&& update.ensures((entity, cx), out)
        }
}

/// `value` is what `build` returned when it was run with a context for the
/// entity `id` over a runtime in the state `state`.
pub open spec fn built_by<V, C, F: FnOnce(&mut ModelContext<'_, V, C>) -> V>(
    build: F,
    id: EntityId,
    type_tag: TypeTag,
    state: AppState<V, C>,
    value: V,
) -> bool {
    exists|cx: &mut ModelContext<'_, V, C>|
        {
            &&& cx.entity_id == id
            &&& cx.entity_type == type_tag
            &&& cx.app@ == state
            &&& build.ensures((cx,), value)
        }
}

/// `build` was run with a context for the entity `id` over a runtime in the
/// state `state`.
pub open spec fn was_built<V, C, F: FnOnce(&mut ModelContext<'_, V, C>) -> V>(
    build: F,
    id: EntityId,
    type_tag: TypeTag,
    state: AppState<V, C>,
) -> bool {
    exists|value: V| #[trigger] built_by(build, id, type_tag, state, value)
}

/// Runs `update` on the runtime, and records on what it was run.
fn run_on_app<V, C, R, F: FnOnce(&mut AppContext<V, C>) -> R>(
    update: F,
    app: &mut AppContext<V, C>,
) -> (out: R)
    requires
        forall|runtime: &mut AppContext<V, C>|
            *runtime == *old(app) ==> #[trigger] update.requires((runtime,)),
    ensures
        run_on(update, old(app)@, out),
        exists|runtime: &mut AppContext<V, C>|
            {
                &&& *runtime == *old(app)
                &&& #[trigger] update.ensures((runtime,), out)
                &&& *final(runtime) == *final(app)
            },
{
    update(app)
}

/// Runs `update` on a value taken out of the runtime, with the runtime, and
/// records on what it was run.
fn run_change<V, C, R, F: FnOnce(&mut V, &mut AppContext<V, C>) -> R>(
    update: F,
    taken: &mut V,
    app: &mut AppContext<V, C>,
) -> (out: R)
    requires
        forall|value: &mut V, runtime: &mut AppContext<V, C>|
            *value == *old(taken) && *runtime == *old(app) ==> #[trigger] update.requires(
                (value, runtime),
            ),
    ensures
        changed_by(update, *old(taken), old(app)@, out),
        exists|value: &mut V, runtime: &mut AppContext<V, C>|
            {
                &&& *value == *old(taken)
                &&& *runtime == *old(app)
                &&& #[trigger] update.ensures((value, runtime), out)
                &&& *final(value) == *final(taken)
                &&& *final(runtime) == *final(app)
            },
{
    update(taken, app)
}

/// Runs `update` on a value with the context of an entity, and records on
/// what it was run.
pub(crate) fn run_update<V, C, R, F: FnOnce(&mut V, &mut ModelContext<'_, V, C>) -> R>(
    update: F,
    entity: &mut V,
    cx: &mut ModelContext<'_, V, C>,
) -> (out: R)
    requires
        forall|value: &mut V, context: &mut ModelContext<'_, V, C>|
            *value == *old(entity) && *context == *old(cx) ==> #[trigger] update.requires(
                (value, context),
            ),
    ensures
        updated_by(
            update,
            *old(entity),
            old(cx).entity_id,
            old(cx).entity_type,
            old(cx).app@,
            out,
        ),
        exists|value: &mut V, context: &mut ModelContext<'_, V, C>|
            {
                &&& *value == *old(entity)
                &&& *context == *old(cx)
                &&& #[trigger] update.ensures((value, context), out)
                &&& *final(value) == *final(entity)
                &&& *final(context) == *final(cx)
            },
{
    update(entity, cx)
}

/// Runs `build` with the context of the new entity, and records with what it
/// was run.
fn run_build<V, C, F: FnOnce(&mut ModelContext<'_, V, C>) -> V>(
    build: F,
    cx: &mut ModelContext<'_, V, C>,
) -> (value: V)
    requires
        forall|context: &mut ModelContext<'_, V, C>|
            *context == *old(cx) ==> #[trigger] build.requires((context,)),
    ensures
        built_by(build, old(cx).entity_id, old(cx).entity_type, old(cx).app@, value),
        exists|context: &mut ModelContext<'_, V, C>|
            {
                &&& *context == *old(cx)
                &&& #[trigger] build.ensures((context,), value)
                &&& *final(context) == *final(cx)
            },
{
    build(cx)
}

impl<V, C> AppState<V, C> {
    /// The end of an update that follows at once on its beginning changes
    /// nothing, when the update is an inner one or no effect waits.
    pub proof fn lemma_empty_update(self)
        requires
            self.depth < usize::MAX,
            self.depth >= 1 || self.effects.pending.len() == 0,
        ensures
            self.entered().finished() == self,
            self.entered().next_effect() is None,
    {
    }
}

impl<V, C> AppContext<V, C> {
    /// Reads the global of a type: takes it out of the table, runs `read` on
    /// it with the runtime as it stands meanwhile, and puts it back. Fails,
    /// without running `read`, when no global of the type is in the table.
    pub fn read_global<R, F: FnOnce(&V, &AppContext<V, C>) -> R>(
        &mut self,
        type_tag: TypeTag,
        read: F,
    ) -> (r: Result<R, Violation>)
        requires
            forall|global: &V, app: &AppContext<V, C>|
                {
                    &&& *global == old(self)@.globals.value(type_tag)
                    &&& app@ == (AppState {
                        globals: old(self)@.globals.leased(type_tag),
                        ..old(self)@
                    })
                } ==> #[trigger] read.requires((global, app)),
        ensures
            final(self)@ == old(self)@,
            match r {
                Ok(out) => {
                    &&& old(self)@.globals.lease_refusal(type_tag) is None
                    &&& read_from(
                        read,
                        old(self)@.globals.value(type_tag),
                        (AppState {
                            globals: old(self)@.globals.leased(type_tag),
                            ..old(self)@
                        }),
                        out,
                    )
                },
                Err(e) => old(self)@.globals.lease_refusal(type_tag) == Some(e),
            },
    {
        match self.lease_global(type_tag) {
            Err(e) => Err(e),
            Ok(lease) => {
                let ghost during = *self;
                let out = read(lease.global(), &*self);
                assert(read.ensures((&lease.value(), &during), out));
                assert(during@ == (AppState {
                    globals: old(self)@.globals.leased(type_tag),
                    ..old(self)@
                }));
                assert(read_from(read, lease.value(), during@, out));
                let restored = self.end_global_lease(lease);
                assert(restored is Ok);
                assert(self@.globals.slots =~= old(self)@.globals.slots);
                Ok(out)
            },
        }
    }

    /// Reads a window: runs `read` on its state with the runtime. Fails,
    /// without running `read`, with `WindowNotFound` when the window is not
    /// open.
    pub fn read_window<R, F: FnOnce(&V, &AppContext<V, C>) -> R>(&self, id: WindowId, read: F) -> (r:
        Result<R, BridgeError>)
        requires
            forall|window: &V, app: &AppContext<V, C>|
                *window == self@.windows.value(id) && app@ == self@ ==> #[trigger] read.requires(
                    (window, app),
                ),
        ensures
            match r {
                Ok(out) => {
                    &&& self@.windows.lease_refusal(id) is None
                    &&& read_from(read, self@.windows.value(id), self@, out)
                },
                Err(e) => self@.windows.lease_refusal(id) == Some(e),
            },
    {
        match self.windows().read(id) {
            Err(e) => Err(e),
            Ok(window) => {
                let out = read(window, self);
                assert(read.ensures((&self@.windows.value(id), self), out));
                assert(read_from(read, self@.windows.value(id), self@, out));
                Ok(out)
            },
        }
    }
}

impl<V, C: Callback<V>> AppContext<V, C> {
    /// Runs `update` as an update of the runtime: enters the update, runs
    /// `update`, and ends the update. The outermost update ends with the
    /// flush; when it returns, no effect waits.
    pub fn update<R, F: FnOnce(&mut AppContext<V, C>) -> R>(&mut self, update: F) -> (r: Result<
        R,
        Violation,
    >)
        requires
            forall|app: &mut AppContext<V, C>|
                app@ == old(self)@.entered() ==> #[trigger] update.requires((app,)),
        ensures
            old(self)@.depth == usize::MAX ==> r == Err::<R, Violation>(Violation::TooManyUpdates)
                && final(self)@ == old(self)@,
            r matches Ok(out) ==> run_on(update, old(self)@.entered(), out),
            r is Ok && final(self)@.is_idle() ==> final(self)@.is_drained(),
            old(self)@.depth < usize::MAX ==> exists|
                out: R,
                app: &mut AppContext<V, C>,
                ending: &mut AppContext<V, C>,
                ended: Result<(), Violation>,
            |
                #![trigger update.ensures((app,), out), call_ensures(AppContext::<V, C>::end_update, (ending,), ended)]
                {
                    &&& app@ == old(self)@.entered()
                    &&& update.ensures((app,), out)
                    &&& ending@ == final(app)@
                    &&& call_ensures(AppContext::<V, C>::end_update, (ending,), ended)
                    &&& final(ending)@ == final(self)@
                    &&& match ended {
                        Ok(_) => r == Ok::<R, Violation>(out),
                        Err(e) => r == Err::<R, Violation>(e),
                    }
                    &&& final(app)@.gives_back(
                        None::<Violation>,
                        |v: Violation| v,
                        out,
                        final(self)@,
                        r,
                    )
                },
    {
        if self.depth() == usize::MAX {
            return Err(Violation::TooManyUpdates);
        }
        self.begin_update();
        let out = run_on_app(update, self);
        match self.end_update() {
            Err(e) => Err(e),
            Ok(_) => Ok(out),
        }
    }

    /// Creates an entity: within an update, issues the identifier, runs
    /// `build` with a context for the new entity and stores what it
    /// returns. The handle returned is the first strong handle of the
    /// entity.
    pub fn entity<F: FnOnce(&mut ModelContext<'_, V, C>) -> V>(
        &mut self,
        type_tag: TypeTag,
        build: F,
    ) -> (r: Result<Handle, Violation>)
        requires
            forall|cx: &mut ModelContext<'_, V, C>|
                {
                    &&& cx.entity_id == EntityId(old(self)@.entities.next_id)
                    &&& cx.entity_type == type_tag
                    &&& cx.app@ == (AppState {
                        entities: old(self)@.entities.reserved(type_tag),
                        ..old(self)@.entered()
                    })
                } ==> #[trigger] build.requires((cx,)),
        ensures
            old(self)@.depth == usize::MAX ==> r == Err::<Handle, Violation>(
                Violation::TooManyUpdates,
            ) && final(self)@ == old(self)@,
            old(self)@.depth < usize::MAX && old(self)@.entities.next_id == u64::MAX ==> r == Err::<
                Handle,
                Violation,
            >(Violation::TooManyEntities) && final(self)@ == old(self)@,
            r matches Ok(handle) ==> {
                &&& handle.id() == EntityId(old(self)@.entities.next_id)
                &&& handle.type_tag() == type_tag
                &&& was_built(
                    build,
                    handle.id(),
                    type_tag,
                    (AppState {
                        entities: old(self)@.entities.reserved(type_tag),
                        ..old(self)@.entered()
                    }),
                )
            },
            r is Ok && final(self)@.is_idle() ==> final(self)@.is_drained(),
            old(self)@.depth < usize::MAX && old(self)@.entities.next_id < u64::MAX
                ==> exists|
                value: V,
                cx: &mut ModelContext<'_, V, C>,
                ending: &mut AppContext<V, C>,
                ended: Result<(), Violation>,
            |
                #![trigger build.ensures((cx,), value), call_ensures(AppContext::<V, C>::end_update, (ending,), ended)]
                {
                    &&& cx.entity_id == EntityId(old(self)@.entities.next_id)
                    &&& cx.entity_type == type_tag
                    &&& cx.app@ == (AppState {
                        entities: old(self)@.entities.reserved(type_tag),
                        ..old(self)@.entered()
                    })
                    &&& build.ensures((cx,), value)
                    &&& ending@ == (*final(cx.app))@.handed_over(cx.entity_id, type_tag, value)
                    &&& call_ensures(AppContext::<V, C>::end_update, (ending,), ended)
                    &&& final(ending)@ == final(self)@
                    &&& match (*final(cx.app))@.entities.insert_refusal(cx.entity_id, type_tag) {
                        Some(e) => r == Err::<Handle, Violation>(e),
                        None => match ended {
                            Ok(_) => r is Ok,
                            Err(e) => r == Err::<Handle, Violation>(e),
                        },
                    }
                    &&& (*final(final(cx).app) == *final(cx.app)) ==> ((*final(cx.app))@
                        == final(cx).app@)
                    &&& (*final(cx.app))@.handed_over(cx.entity_id, type_tag, value).gives_back(
                        (*final(cx.app))@.entities.insert_refusal(cx.entity_id, type_tag),
                        |v: Violation| v,
                        (),
                        final(self)@,
                        match r {
                            Ok(_) => Ok::<(), Violation>(()),
                            Err(e) => Err::<(), Violation>(e),
                        },
                    )
                },
    {
        if self.depth() == usize::MAX {
            return Err(Violation::TooManyUpdates);
        }
        if !self.can_reserve() {
            return Err(Violation::TooManyEntities);
        }
        self.begin_update();
        let slot = self.reserve(type_tag);
        let ghost id = slot.id();
        let ghost reserved = self@;
        let mut cx = ModelContext::mutable(self, slot.entity_id(), type_tag);
        let value = run_build(build, &mut cx);
        assert(built_by(build, id, type_tag, reserved, value));
        let stored = self.insert(slot, value);
        let ended = self.end_update();
        match stored {
            Err(e) => Err(e),
            Ok(handle) => match ended {
                Err(e) => Err(e),
                Ok(_) => Ok(handle),
            },
        }
    }

    /// Updates an entity: within an update, takes the entity out of the
    /// store, runs `update` on it with a context of its own and puts it
    /// back. An attempt on an entity that is out of the store already, as
    /// from within its own update, is refused with `Absent`: `update` is not
    /// run and nothing has changed.
    pub fn update_entity<R, F: FnOnce(&mut V, &mut ModelContext<'_, V, C>) -> R>(
        &mut self,
        handle: &Handle,
        update: F,
    ) -> (r: Result<R, Violation>)
        requires
            forall|state: &mut V, cx: &mut ModelContext<'_, V, C>|
                {
                    &&& *state == old(self)@.entities.value(handle.id())
                    &&& cx.entity_id == handle.id()
                    &&& cx.entity_type == handle.type_tag()
                    &&& cx.app@ == (AppState {
                        entities: old(self)@.entities.leased(handle.id()),
                        ..old(self)@.entered()
                    })
                } ==> #[trigger] update.requires((state, cx)),
        ensures
            old(self)@.depth == usize::MAX ==> r == Err::<R, Violation>(Violation::TooManyUpdates)
                && final(self)@ == old(self)@,
            old(self)@.depth < usize::MAX ==> match old(self)@.entities.lease_refusal(
                handle.id(),
                handle.type_tag(),
            ) {
                Some(e) => {
                    &&& r == Err::<R, Violation>(e)
                    &&& old(self)@.depth >= 1 || old(self)@.effects.pending.len() == 0
                        ==> final(self)@ == old(self)@
                },
                None => r matches Ok(out) ==> updated_by(
                    update,
                    old(self)@.entities.value(handle.id()),
                    handle.id(),
                    handle.type_tag(),
                    (AppState {
                        entities: old(self)@.entities.leased(handle.id()),
                        ..old(self)@.entered()
                    }),
                    out,
                ),
            },
            old(self)@.entities.is_leased(handle.id()) ==> r is Err,
            r is Ok && final(self)@.is_idle() ==> final(self)@.is_drained(),
            old(self)@.depth < usize::MAX && old(self)@.entities.lease_refusal(
                handle.id(),
                handle.type_tag(),
            ) is None ==> exists|
                out: R,
                entity: &mut V,
                cx: &mut ModelContext<'_, V, C>,
                ending: &mut AppContext<V, C>,
                ended: Result<(), Violation>,
            |
                #![trigger update.ensures((entity, cx), out), call_ensures(AppContext::<V, C>::end_update, (ending,), ended)]
                {
                    &&& *entity == old(self)@.entities.value(handle.id())
                    &&& cx.entity_id == handle.id()
                    &&& cx.entity_type == handle.type_tag()
                    &&& cx.app@ == (AppState {
                        entities: old(self)@.entities.leased(handle.id()),
                        ..old(self)@.entered()
                    })
                    &&& update.ensures((entity, cx), out)
                    &&& ending@ == (*final(cx.app))@.handed_back(
                        handle.id(),
                        handle.type_tag(),
                        *final(entity),
                    )
                    &&& call_ensures(AppContext::<V, C>::end_update, (ending,), ended)
                    &&& final(ending)@ == final(self)@
                    &&& match (*final(cx.app))@.entities.restore_refusal(
                        handle.id(),
                        handle.type_tag(),
                    ) {
                        Some(e) => r == Err::<R, Violation>(e),
                        None => match ended {
                            Ok(_) => r == Ok::<R, Violation>(out),
                            Err(e) => r == Err::<R, Violation>(e),
                        },
                    }
                    &&& (*final(final(cx).app) == *final(cx.app)) ==> ((*final(cx.app))@
                        == final(cx).app@)
                    &&& (*final(cx.app))@.handed_back(
                        handle.id(),
                        handle.type_tag(),
                        *final(entity),
                    ).gives_back(
                        (*final(cx.app))@.entities.restore_refusal(handle.id(), handle.type_tag()),
                        |v: Violation| v,
                        out,
                        final(self)@,
                        r,
                    )
                },
    {
        if self.depth() == usize::MAX {
            return Err(Violation::TooManyUpdates);
        }
        proof {
            if self@.depth >= 1 || self@.effects.pending.len() == 0 {
                self@.lemma_empty_update();
            }
        }
        self.begin_update();
        let result = match self.lease(handle) {
            Err(e) => Err(e),
            Ok(mut lease) => {
                let id = lease.entity_id();
                let type_tag = lease.entity_type();
                let mut cx = ModelContext::mutable(self, id, type_tag);
                let out = run_update(update, lease.entity_mut(), &mut cx);
                match self.end_lease(lease) {
                    Ok(_) => Ok(out),
                    Err(e) => Err(e),
                }
            },
        };
        let ended = self.end_update();
        match result {
            Err(e) => Err(e),
            Ok(out) => match ended {
                Err(e) => Err(e),
                Ok(_) => Ok(out),
            },
        }
    }

    /// Updates the global of a type: within an update, takes it out of the
    /// table, runs `update` on it with the runtime and puts it back. Fails,
    /// without running `update`, when no global of the type is in the
    /// table.
    pub fn update_global<R, F: FnOnce(&mut V, &mut AppContext<V, C>) -> R>(
        &mut self,
        type_tag: TypeTag,
        update: F,
    ) -> (r: Result<R, Violation>)
        requires
            forall|global: &mut V, app: &mut AppContext<V, C>|
                {
                    &&& *global == old(self)@.globals.value(type_tag)
                    &&& app@ == (AppState {
                        globals: old(self)@.globals.leased(type_tag),
                        ..old(self)@.entered()
                    })
                } ==> #[trigger] update.requires((global, app)),
        ensures
            old(self)@.depth == usize::MAX ==> r == Err::<R, Violation>(Violation::TooManyUpdates)
                && final(self)@ == old(self)@,
            old(self)@.depth < usize::MAX ==> match old(self)@.globals.lease_refusal(type_tag) {
                Some(e) => {
                    &&& r == Err::<R, Violation>(e)
                    &&& old(self)@.depth >= 1 || old(self)@.effects.pending.len() == 0
                        ==> final(self)@ == old(self)@
                },
                None => r matches Ok(out) ==> changed_by(
                    update,
                    old(self)@.globals.value(type_tag),
                    (AppState {
                        globals: old(self)@.globals.leased(type_tag),
                        ..old(self)@.entered()
                    }),
                    out,
                ),
            },
            r is Ok && final(self)@.is_idle() ==> final(self)@.is_drained(),
            old(self)@.depth < usize::MAX && old(self)@.globals.lease_refusal(type_tag) is None
                ==> exists|
                out: R,
                global: &mut V,
                app: &mut AppContext<V, C>,
                ending: &mut AppContext<V, C>,
                ended: Result<(), Violation>,
            |
                #![trigger update.ensures((global, app), out), call_ensures(AppContext::<V, C>::end_update, (ending,), ended)]
                {
                    &&& *global == old(self)@.globals.value(type_tag)
                    &&& app@ == (AppState {
                        globals: old(self)@.globals.leased(type_tag),
                        ..old(self)@.entered()
                    })
                    &&& update.ensures((global, app), out)
                    &&& ending@ == final(app)@.global_handed_back(type_tag, *final(global))
                    &&& call_ensures(AppContext::<V, C>::end_update, (ending,), ended)
                    &&& final(ending)@ == final(self)@
                    &&& match final(app)@.globals.restore_refusal(type_tag) {
                        Some(e) => r == Err::<R, Violation>(e),
                        None => match ended {
                            Ok(_) => r == Ok::<R, Violation>(out),
                            Err(e) => r == Err::<R, Violation>(e),
                        },
                    }
                    &&& final(app)@.global_handed_back(type_tag, *final(global)).gives_back(
                        final(app)@.globals.restore_refusal(type_tag),
                        |v: Violation| v,
                        out,
                        final(self)@,
                        r,
                    )
                },
    {
        if self.depth() == usize::MAX {
            return Err(Violation::TooManyUpdates);
        }
        proof {
            if self@.depth >= 1 || self@.effects.pending.len() == 0 {
                self@.lemma_empty_update();
            }
        }
        self.begin_update();
        let result = match self.lease_global(type_tag) {
            Err(e) => Err(e),
            Ok(mut lease) => {
                let out = run_change(update, lease.global_mut(), self);
                match self.end_global_lease(lease) {
                    Ok(_) => Ok(out),
                    Err(e) => Err(e),
                }
            },
        };
        let ended = self.end_update();
        match result {
            Err(e) => Err(e),
            Ok(out) => match ended {
                Err(e) => Err(e),
                Ok(_) => Ok(out),
            },
        }
    }

    /// Updates a window: within an update, takes the state of the window
    /// out of the table, runs `update` on it with the runtime and puts it
    /// back. Fails with `WindowNotFound`, without running `update`, when the
    /// window is not open, and with the same failure afterwards when
    /// `update` closed the window.
    pub fn update_window<R, F: FnOnce(&mut V, &mut AppContext<V, C>) -> R>(
        &mut self,
        id: WindowId,
        update: F,
    ) -> (r: Result<R, BridgeError>)
        requires
            forall|window: &mut V, app: &mut AppContext<V, C>|
                {
                    &&& *window == old(self)@.windows.value(id)
                    &&& app@ == (AppState {
                        windows: old(self)@.windows.with_state(id, None),
                        ..old(self)@.entered()
                    })
                } ==> #[trigger] update.requires((window, app)),
        ensures
            old(self)@.depth == usize::MAX ==> r == Err::<R, BridgeError>(
                BridgeError::Violation(Violation::TooManyUpdates),
            ) && final(self)@ == old(self)@,
            old(self)@.depth < usize::MAX ==> match old(self)@.windows.lease_refusal(id) {
                Some(e) => {
                    &&& r == Err::<R, BridgeError>(e)
                    &&& old(self)@.depth >= 1 || old(self)@.effects.pending.len() == 0
                        ==> final(self)@ == old(self)@
                },
                None => r matches Ok(out) ==> changed_by(
                    update,
                    old(self)@.windows.value(id),
                    (AppState {
                        windows: old(self)@.windows.with_state(id, None),
                        ..old(self)@.entered()
                    }),
                    out,
                ),
            },
            r is Ok && final(self)@.is_idle() ==> final(self)@.is_drained(),
            old(self)@.depth < usize::MAX && old(self)@.windows.lease_refusal(id) is None
                ==> exists|
                out: R,
                window: &mut V,
                app: &mut AppContext<V, C>,
                ending: &mut AppContext<V, C>,
                ended: Result<(), Violation>,
            |
                #![trigger update.ensures((window, app), out), call_ensures(AppContext::<V, C>::end_update, (ending,), ended)]
                {
                    &&& *window == old(self)@.windows.value(id)
                    &&& app@ == (AppState {
                        windows: old(self)@.windows.with_state(id, None),
                        ..old(self)@.entered()
                    })
                    &&& update.ensures((window, app), out)
                    &&& ending@ == final(app)@.window_handed_back(id, *final(window))
                    &&& call_ensures(AppContext::<V, C>::end_update, (ending,), ended)
                    &&& final(ending)@ == final(self)@
                    &&& match final(app)@.windows.restore_refusal(id) {
                        Some(e) => r == Err::<R, BridgeError>(e),
                        None => match ended {
                            Ok(_) => r == Ok::<R, BridgeError>(out),
                            Err(e) => r == Err::<R, BridgeError>(BridgeError::Violation(e)),
                        },
                    }
                    &&& final(app)@.window_handed_back(id, *final(window)).gives_back(
                        final(app)@.windows.restore_refusal(id),
                        |v: Violation| BridgeError::Violation(v),
                        out,
                        final(self)@,
                        r,
                    )
                },
    {
        if self.depth() == usize::MAX {
            return Err(BridgeError::Violation(Violation::TooManyUpdates));
        }
        proof {
            if self@.depth >= 1 || self@.effects.pending.len() == 0 {
                self@.lemma_empty_update();
            }
        }
        self.begin_update();
        let result = match self.lease_window(id) {
            Err(e) => Err(e),
            Ok(mut lease) => {
                let out = run_change(update, lease.window_mut(), self);
                match self.end_window_lease(lease) {
                    Ok(_) => Ok(out),
                    Err(e) => Err(e),
                }
            },
        };
        let ended = self.end_update();
        match result {
            Err(e) => Err(e),
            Ok(out) => match ended {
                Err(e) => Err(BridgeError::Violation(e)),
                Ok(_) => Ok(out),
            },
        }
    }
}

} // verus!
