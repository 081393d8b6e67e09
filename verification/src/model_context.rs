use crate::app::AppContext;
use crate::state::AppState;
use crate::delivery::Callback;
use crate::update::{read_from, run_update, updated_by, was_built};
use crate::error::Violation;
use crate::effect::Effect;
use crate::entity::{EntityId, Handle, TypeTag, WeakHandle};
use crate::subscription::{Handler, Relation, Subscription};
use vstd::prelude::*;

verus! {

/// The context handed to the code that builds or updates one entity: all
/// that the runtime offers, and the identity of the entity it is for, so
/// that what the code registers and announces is put down to that entity.
pub struct ModelContext<'a, V, C> {
    /// The runtime, for everything that is not tied to the entity.
    pub app: &'a mut AppContext<V, C>,
    /// The entity that the context is for.
    pub entity_id: EntityId,
    /// The type of that entity.
    pub entity_type: TypeTag,
}

impl<'a, V, C> ModelContext<'a, V, C> {
    /// The weak handle of the entity that the context is for.
    pub open spec fn this(&self) -> WeakHandle {
        WeakHandle { id: self.entity_id, type_tag: self.entity_type }
    }

    /// The handler that runs `callback` on this entity when `handle`'s
    /// entity notifies or, with an event type, sends an event of that type.
    pub open spec fn watching(
        &self,
        handle: &Handle,
        event_type: Option<TypeTag>,
        callback: C,
    ) -> Handler<C> {
        Handler {
            this: Some(self.this()),
            target: WeakHandle { id: handle.id(), type_tag: handle.type_tag() },
            event_type,
            callback,
        }
    }

    /// The handler that runs `callback` on this entity when it is released.
    pub open spec fn watching_own_release(&self, callback: C) -> Handler<C> {
        Handler { this: None, target: self.this(), event_type: None, callback }
    }

    /// The runtime after `handler` is registered under `emitter`.
    pub open spec fn registered(
        &self,
        relation: Relation,
        emitter: EntityId,
        handler: Handler<C>,
    ) -> AppState<V, C> {
        self.app@.with_registry(relation, self.app@.registry(relation).inserted(emitter, handler))
    }

    /// A context for the entity `entity_id` over the whole runtime.
    pub fn mutable(app: &'a mut AppContext<V, C>, entity_id: EntityId, entity_type: TypeTag) -> (cx:
        Self)
        ensures
            cx.entity_id == entity_id,
            cx.entity_type == entity_type,
            *cx.app == *old(app),
            *final(cx.app) == *final(app),
    {
        ModelContext { app, entity_id, entity_type }
    }

    /// A weak handle to the entity that the context is for.
    pub fn handle(&self) -> (weak: WeakHandle)
        ensures
            weak == self.this(),
    {
        self.app.entities().weak_handle(self.entity_id, self.entity_type)
    }

    /// Registers `on_notify` to run on this entity each time the entity of
    /// `handle` notifies, for as long as both are live. It is delivered
    /// after every callback registered on that entity before.
    pub fn observe(&mut self, handle: &Handle, on_notify: C) -> (token: Subscription)
        requires
            old(self).app@.observers.next_id < u64::MAX,
        ensures
            final(self).app@ == old(self).registered(
                Relation::Observe,
                handle.id(),
                old(self).watching(handle, None, on_notify),
            ),
            old(self).app@.wf() ==> final(self).app@.wf() && old(self).app@.leads_to(
                final(self).app@,
            ),
            token.relation() == Relation::Observe,
            token.id() == old(self).app@.observers.next_id,
            final(self).app@.observers.ids_of(handle.id()) == old(self).app@.observers.ids_of(
                handle.id(),
            ).push(token.id()),
            final(self).entity_id == old(self).entity_id,
            final(self).entity_type == old(self).entity_type,
            *final(final(self).app) == *final(old(self).app),
    {
        let this = self.handle();
        let target = handle.downgrade();
        self.app.register(
            Relation::Observe,
            target.id,
            Handler { this: Some(this), target, event_type: None, callback: on_notify },
        )
    }

    /// Registers `on_event` to run on this entity for each event of type
    /// `event_type` that the entity of `handle` sends, for as long as both
    /// are live. It is delivered after every callback registered on that
    /// entity before.
    pub fn subscribe(&mut self, handle: &Handle, event_type: TypeTag, on_event: C) -> (token:
        Subscription)
        requires
            old(self).app@.event_handlers.next_id < u64::MAX,
        ensures
            final(self).app@ == old(self).registered(
                Relation::Subscribe,
                handle.id(),
                old(self).watching(handle, Some(event_type), on_event),
            ),
            old(self).app@.wf() ==> final(self).app@.wf() && old(self).app@.leads_to(
                final(self).app@,
            ),
            token.relation() == Relation::Subscribe,
            token.id() == old(self).app@.event_handlers.next_id,
            final(self).app@.event_handlers.ids_of(handle.id()) == old(
                self,
            ).app@.event_handlers.ids_of(handle.id()).push(token.id()),
            final(self).entity_id == old(self).entity_id,
            final(self).entity_type == old(self).entity_type,
            *final(final(self).app) == *final(old(self).app),
    {
        let this = self.handle();
        let target = handle.downgrade();
        self.app.register(
            Relation::Subscribe,
            target.id,
            Handler { this: Some(this), target, event_type: Some(event_type), callback: on_event },
        )
    }

    /// Registers `on_release` to run on this entity's value when the entity
    /// is released.
    pub fn on_release(&mut self, on_release: C) -> (token: Subscription)
        requires
            old(self).app@.release_handlers.next_id < u64::MAX,
        ensures
            final(self).app@ == old(self).registered(
                Relation::Release,
                old(self).entity_id,
                old(self).watching_own_release(on_release),
            ),
            old(self).app@.wf() ==> final(self).app@.wf() && old(self).app@.leads_to(
                final(self).app@,
            ),
            token.relation() == Relation::Release,
            token.id() == old(self).app@.release_handlers.next_id,
            final(self).app@.release_handlers.ids_of(old(self).entity_id) == old(
                self,
            ).app@.release_handlers.ids_of(old(self).entity_id).push(token.id()),
            final(self).entity_id == old(self).entity_id,
            final(self).entity_type == old(self).entity_type,
            *final(final(self).app) == *final(old(self).app),
    {
        let target = self.handle();
        self.app.register(
            Relation::Release,
            self.entity_id,
            Handler { this: None, target, event_type: None, callback: on_release },
        )
    }

    /// Registers `on_release` to run on this entity when the entity of
    /// `handle` is released, if this entity is live then.
    pub fn observe_release(&mut self, handle: &Handle, on_release: C) -> (token: Subscription)
        requires
            old(self).app@.release_handlers.next_id < u64::MAX,
        ensures
            final(self).app@ == old(self).registered(
                Relation::Release,
                handle.id(),
                old(self).watching(handle, None, on_release),
            ),
            old(self).app@.wf() ==> final(self).app@.wf() && old(self).app@.leads_to(
                final(self).app@,
            ),
            token.relation() == Relation::Release,
            token.id() == old(self).app@.release_handlers.next_id,
            final(self).app@.release_handlers.ids_of(handle.id()) == old(
                self,
            ).app@.release_handlers.ids_of(handle.id()).push(token.id()),
            final(self).entity_id == old(self).entity_id,
            final(self).entity_type == old(self).entity_type,
            *final(final(self).app) == *final(old(self).app),
    {
        let this = self.handle();
        let target = handle.downgrade();
        self.app.register(
            Relation::Release,
            target.id,
            Handler { this: Some(this), target, event_type: None, callback: on_release },
        )
    }

    /// Queues the notification of this entity's observers.
    pub fn notify(&mut self)
        ensures
            final(self).app@ == old(self).app@.with_effect(
                Effect::Notify { emitter: old(self).entity_id },
            ),
            old(self).app@.wf() ==> final(self).app@.wf() && old(self).app@.leads_to(
                final(self).app@,
            ),
            final(self).entity_id == old(self).entity_id,
            final(self).entity_type == old(self).entity_type,
            *final(final(self).app) == *final(old(self).app),
    {
        self.app.notify(self.entity_id);
    }

    /// Queues an event of this entity for its subscribers.
    pub fn emit(&mut self, event_type: TypeTag, event: V)
        ensures
            final(self).app@ == old(self).app@.with_effect(
                Effect::Emit { emitter: old(self).entity_id, event_type, event },
            ),
            old(self).app@.wf() ==> final(self).app@.wf() && old(self).app@.leads_to(
                final(self).app@,
            ),
            final(self).entity_id == old(self).entity_id,
            final(self).entity_type == old(self).entity_type,
            *final(final(self).app) == *final(old(self).app),
    {
        self.app.emit(self.entity_id, event_type, event);
    }

    /// Reads the global of a type: takes it out of the table, runs `read` on
    /// it with the runtime as it stands meanwhile, and puts it back. Fails,
    /// without running `read`, when no global of the type is in the table.
    pub fn read_global<R, F: FnOnce(&V, &AppContext<V, C>) -> R>(
        &mut self,
        type_tag: TypeTag,
        read: F,
    ) -> (r: Result<R, Violation>)
        requires
            forall|global: &V, app: &AppContext<V, C>|
                {
                    &&& *global == old(self).app@.globals.value(type_tag)
                    &&& app@ == (AppState {
                        globals: old(self).app@.globals.leased(type_tag),
                        ..old(self).app@
                    })
                } ==> #[trigger] read.requires((global, app)),
        ensures
            final(self).app@ == old(self).app@,
            match r {
                Ok(out) => {
                    &&& old(self).app@.globals.lease_refusal(type_tag) is None
                    &&& read_from(
                        read,
                        old(self).app@.globals.value(type_tag),
                        (AppState {
                            globals: old(self).app@.globals.leased(type_tag),
                            ..old(self).app@
                        }),
                        out,
                    )
                },
                Err(e) => old(self).app@.globals.lease_refusal(type_tag) == Some(e),
            },
            final(self).entity_id == old(self).entity_id,
            final(self).entity_type == old(self).entity_type,
            *final(final(self).app) == *final(old(self).app),
    {
        self.app.read_global(type_tag, read)
    }

    /// Updates the global of a type: takes it out of the table, runs
    /// `update` on it with this context, and puts it back. Fails, without
    /// running `update`, when no global of the type is in the table; fails
    /// afterwards when `update` left the table in no state to take the
    /// global back.
    pub fn update_global<R, F: FnOnce(&mut V, &mut ModelContext<'_, V, C>) -> R>(
        &mut self,
        type_tag: TypeTag,
        update: F,
    ) -> (r: Result<R, Violation>)
        requires
            forall|global: &mut V, cx: &mut ModelContext<'_, V, C>|
                {
                    &&& *global == old(self).app@.globals.value(type_tag)
                    &&& cx.entity_id == old(self).entity_id
                    &&& cx.entity_type == old(self).entity_type
                    &&& cx.app@ == (AppState {
                        globals: old(self).app@.globals.leased(type_tag),
                        ..old(self).app@
                    })
                } ==> #[trigger] update.requires((global, cx)),
        ensures
            match old(self).app@.globals.lease_refusal(type_tag) {
                Some(e) => {
                    &&& r == Err::<R, Violation>(e)
                    &&& final(self).app@ == old(self).app@
                    &&& final(self).entity_id == old(self).entity_id
                    &&& final(self).entity_type == old(self).entity_type
                    &&& *final(final(self).app) == *final(old(self).app)
                },
                None => match r {
                    Ok(out) => {
                        &&& final(self).app@.globals.is_present(type_tag)
                        &&& updated_by(
                            update,
                            old(self).app@.globals.value(type_tag),
                            old(self).entity_id,
                            old(self).entity_type,
                            (AppState {
                                globals: old(self).app@.globals.leased(type_tag),
                                ..old(self).app@
                            }),
                            out,
                        )
                    },
                    Err(e) => final(self).app@.globals.restore_refusal(type_tag) == Some(e),
                },
            },
            old(self).app@.globals.lease_refusal(type_tag) is None ==> exists|
                out: R,
                global: &mut V,
                cx: &mut ModelContext<'_, V, C>,
            |
                {
                    &&& *global == old(self).app@.globals.value(type_tag)
                    &&& cx.entity_id == old(self).entity_id
                    &&& cx.entity_type == old(self).entity_type
                    &&& cx.app@ == (AppState {
                        globals: old(self).app@.globals.leased(type_tag),
                        ..old(self).app@
                    })
                    &&& #[trigger] update.ensures((global, cx), out)
                    &&& final(self).entity_id == final(cx).entity_id
                    &&& final(self).entity_type == final(cx).entity_type
                    &&& final(self).app@ == final(cx).app@.global_handed_back(
                        type_tag,
                        *final(global),
                    )
                    &&& match final(cx).app@.globals.restore_refusal(type_tag) {
                        Some(e) => r == Err::<R, Violation>(e),
                        None => r == Ok::<R, Violation>(out),
                    }
                },
    {
        match self.app.lease_global(type_tag) {
            Err(e) => Err(e),
            Ok(mut lease) => {
                let out = run_update(update, lease.global_mut(), self);
                match self.app.end_global_lease(lease) {
                    Ok(_) => Ok(out),
                    Err(e) => Err(e),
                }
            },
        }
    }

    /// Marks what depends on the runtime as in need of a refresh.
    pub fn refresh(&mut self)
        ensures
            final(self).app@ == (AppState { dirty: true, ..old(self).app@ }),
            old(self).app@.leads_to(final(self).app@),
            final(self).entity_id == old(self).entity_id,
            final(self).entity_type == old(self).entity_type,
            *final(final(self).app) == *final(old(self).app),
    {
        self.app.refresh();
    }
}

impl<'a, V, C: Callback<V>> ModelContext<'a, V, C> {
    /// Creates an entity from within this context, as the runtime does.
    pub fn entity<F: FnOnce(&mut ModelContext<'_, V, C>) -> V>(
        &mut self,
        type_tag: TypeTag,
        build: F,
    ) -> (r: Result<Handle, Violation>)
        requires
            forall|cx: &mut ModelContext<'_, V, C>|
                {
                    &&& cx.entity_id == EntityId(old(self).app@.entities.next_id)
                    &&& cx.entity_type == type_tag
                    &&& cx.app@ == (AppState {
                        entities: old(self).app@.entities.reserved(type_tag),
                        ..old(self).app@.entered()
                    })
                } ==> #[trigger] build.requires((cx,)),
        ensures
            old(self).app@.depth == usize::MAX ==> r == Err::<Handle, Violation>(
                Violation::TooManyUpdates,
            ) && final(self).app@ == old(self).app@,
            old(self).app@.depth < usize::MAX && old(self).app@.entities.next_id == u64::MAX
                ==> r == Err::<Handle, Violation>(Violation::TooManyEntities) && final(self).app@
                == old(self).app@,
            r matches Ok(handle) ==> {
                &&& handle.id() == EntityId(old(self).app@.entities.next_id)
                &&& handle.type_tag() == type_tag
                &&& was_built(
                    build,
                    handle.id(),
                    type_tag,
                    (AppState {
                        entities: old(self).app@.entities.reserved(type_tag),
                        ..old(self).app@.entered()
                    }),
                )
            },
            r is Ok && final(self).app@.is_idle() ==> final(self).app@.is_drained(),
            old(self).app@.depth < usize::MAX && old(self).app@.entities.next_id < u64::MAX
                ==> exists|
                value: V,
                cx: &mut ModelContext<'_, V, C>,
                ending: &mut AppContext<V, C>,
                ended: Result<(), Violation>,
            |
                #![trigger build.ensures((cx,), value), call_ensures(AppContext::<V, C>::end_update, (ending,), ended)]
                {
                    &&& cx.entity_id == EntityId(old(self).app@.entities.next_id)
                    &&& cx.entity_type == type_tag
                    &&& cx.app@ == (AppState {
                        entities: old(self).app@.entities.reserved(type_tag),
                        ..old(self).app@.entered()
                    })
                    &&& build.ensures((cx,), value)
                    &&& ending@ == (*final(cx.app))@.handed_over(cx.entity_id, type_tag, value)
                    &&& call_ensures(AppContext::<V, C>::end_update, (ending,), ended)
                    &&& final(ending)@ == final(self).app@
                    &&& match (*final(cx.app))@.entities.insert_refusal(cx.entity_id, type_tag) {
                        Some(e) => r == Err::<Handle, Violation>(e),
                        None => match ended {
                            Ok(_) => r is Ok,
                            Err(e) => r == Err::<Handle, Violation>(e),
                        },
                    }
                    &&& (*final(final(cx).app) == *final(cx.app)) ==> ((*final(cx.app))@
                        == final(cx).app@)
                    &&& (*final(cx.app))@.handed_over(cx.entity_id, type_tag, value).gives_back(
                        (*final(cx.app))@.entities.insert_refusal(cx.entity_id, type_tag),
                        |v: Violation| v,
                        (),
                        final(self).app@,
                        match r {
                            Ok(_) => Ok::<(), Violation>(()),
                            Err(e) => Err::<(), Violation>(e),
                        },
                    )
                },
            final(self).entity_id == old(self).entity_id,
            final(self).entity_type == old(self).entity_type,
            *final(final(self).app) == *final(old(self).app),
    {
        self.app.entity(type_tag, build)
    }

    /// Updates another entity from within this context, as the runtime
    /// does. An attempt on the entity of this context itself, while its own
    /// update runs, is refused with `Absent`, and nothing has changed.
    pub fn update_entity<R, F: FnOnce(&mut V, &mut ModelContext<'_, V, C>) -> R>(
        &mut self,
        handle: &Handle,
        update: F,
    ) -> (r: Result<R, Violation>)
        requires
            forall|state: &mut V, cx: &mut ModelContext<'_, V, C>|
                {
                    &&& *state == old(self).app@.entities.value(handle.id())
                    &&& cx.entity_id == handle.id()
                    &&& cx.entity_type == handle.type_tag()
                    &&& cx.app@ == (AppState {
                        entities: old(self).app@.entities.leased(handle.id()),
                        ..old(self).app@.entered()
                    })
                } ==> #[trigger] update.requires((state, cx)),
        ensures
            old(self).app@.depth == usize::MAX ==> r == Err::<R, Violation>(
                Violation::TooManyUpdates,
            ) && final(self).app@ == old(self).app@,
            old(self).app@.depth < usize::MAX ==> match old(self).app@.entities.lease_refusal(
                handle.id(),
                handle.type_tag(),
            ) {
                Some(e) => {
                    &&& r == Err::<R, Violation>(e)
                    &&& old(self).app@.depth >= 1 || old(self).app@.effects.pending.len() == 0
                        ==> final(self).app@ == old(self).app@
                },
                None => r matches Ok(out) ==> updated_by(
                    update,
                    old(self).app@.entities.value(handle.id()),
                    handle.id(),
                    handle.type_tag(),
                    (AppState {
                        entities: old(self).app@.entities.leased(handle.id()),
                        ..old(self).app@.entered()
                    }),
                    out,
                ),
            },
            old(self).app@.entities.is_leased(handle.id()) ==> r is Err,
            r is Ok && final(self).app@.is_idle() ==> final(self).app@.is_drained(),
            old(self).app@.depth < usize::MAX && old(self).app@.entities.lease_refusal(
                handle.id(),
                handle.type_tag(),
            ) is None ==> exists|
                out: R,
                entity: &mut V,
                cx: &mut ModelContext<'_, V, C>,
                ending: &mut AppContext<V, C>,
                ended: Result<(), Violation>,
            |
                #![trigger update.ensures((entity, cx), out), call_ensures(AppContext::<V, C>::end_update, (ending,), ended)]
                {
                    &&& *entity == old(self).app@.entities.value(handle.id())
                    &&& cx.entity_id == handle.id()
                    &&& cx.entity_type == handle.type_tag()
                    &&& cx.app@ == (AppState {
                        entities: old(self).app@.entities.leased(handle.id()),
                        ..old(self).app@.entered()
                    })
                    &&& update.ensures((entity, cx), out)
                    &&& ending@ == (*final(cx.app))@.handed_back(
                        handle.id(),
                        handle.type_tag(),
                        *final(entity),
                    )
                    &&& call_ensures(AppContext::<V, C>::end_update, (ending,), ended)
                    &&& final(ending)@ == final(self).app@
                    &&& match (*final(cx.app))@.entities.restore_refusal(
                        handle.id(),
                        handle.type_tag(),
                    ) {
                        Some(e) => r == Err::<R, Violation>(e),
                        None => match ended {
                            Ok(_) => r == Ok::<R, Violation>(out),
                            Err(e) => r == Err::<R, Violation>(e),
                        },
                    }
                    &&& (*final(final(cx).app) == *final(cx.app)) ==> ((*final(cx.app))@
                        == final(cx).app@)
                    &&& (*final(cx.app))@.handed_back(
                        handle.id(),
                        handle.type_tag(),
                        *final(entity),
                    ).gives_back(
                        (*final(cx.app))@.entities.restore_refusal(handle.id(), handle.type_tag()),
                        |v: Violation| v,
                        out,
                        final(self).app@,
                        r,
                    )
                },
            final(self).entity_id == old(self).entity_id,
            final(self).entity_type == old(self).entity_type,
            *final(final(self).app) == *final(old(self).app),
    {
        self.app.update_entity(handle, update)
    }
}

} // verus!
