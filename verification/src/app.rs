use crate::effect::{Effect, EffectQueue};
use crate::entity::{EntityId, EntityMap, Handle, Lease, Slot, TypeTag, WeakHandle};
use crate::error::{BridgeError, Violation};
use crate::global::{GlobalLease, GlobalMap};
use crate::state::{AppState, Dropped};
use crate::subscription::{Handler, Relation, SubscriberSet, Subscription};
use crate::window::{WindowId, WindowLease, WindowMap};
use vstd::prelude::*;

verus! {

/// The runtime: the entity store, the globals, the queue of effects and the
/// registries of callbacks, owned as one aggregate.
pub struct AppContext<V, C> {
    entities: EntityMap<V>,
    globals: GlobalMap<V>,
    effects: EffectQueue<V, C>,
    observers: SubscriberSet<Handler<C>>,
    event_handlers: SubscriberSet<Handler<C>>,
    release_handlers: SubscriberSet<Handler<C>>,
    windows: WindowMap<V, C>,
    depth: usize,
    dirty: bool,
}

impl<V, C> View for AppContext<V, C> {
    type V = AppState<V, C>;

    closed spec fn view(&self) -> AppState<V, C> {
        AppState {
            entities: self.entities@,
            globals: self.globals@,
            effects: self.effects@,
            observers: self.observers@,
            event_handlers: self.event_handlers@,
            release_handlers: self.release_handlers@,
            windows: self.windows@,
            depth: self.depth,
            dirty: self.dirty,
        }
    }
}

impl<V, C> AppContext<V, C> {
    pub fn new() -> (app: Self)
        ensures
            app@ == AppState::<V, C>::empty(),
            app@.wf(),
    {
        AppContext {
            entities: EntityMap::new(),
            globals: GlobalMap::new(),
            effects: EffectQueue::new(),
            observers: SubscriberSet::new(),
            event_handlers: SubscriberSet::new(),
            release_handlers: SubscriberSet::new(),
            windows: WindowMap::new(),
            depth: 0,
            dirty: false,
        }
    }

    /// The entity store, to look at.
    pub fn entities(&self) -> (entities: &EntityMap<V>)
        ensures
            entities@ == self@.entities,
    {
        &self.entities
    }

    /// The globals, to look at.
    pub fn globals(&self) -> (globals: &GlobalMap<V>)
        ensures
            globals@ == self@.globals,
    {
        &self.globals
    }

    /// The registry of one relationship, to look at.
    pub fn subscribers(&self, relation: Relation) -> (set: &SubscriberSet<Handler<C>>)
        ensures
            set@ == self@.registry(relation),
    {
        match relation {
            Relation::Observe => &self.observers,
            Relation::Subscribe => &self.event_handlers,
            Relation::Release => &self.release_handlers,
        }
    }

    /// The number of updates under way.
    pub fn depth(&self) -> (depth: usize)
        ensures
            depth == self@.depth,
    {
        self.depth
    }

    /// The number of effects that wait.
    pub fn pending_effects(&self) -> (n: usize)
        ensures
            n == self@.effects.pending.len(),
    {
        self.effects.len()
    }

    /// Enters an update. Updates nest: only the end of the outermost one
    /// flushes the queue.
    pub fn begin_update(&mut self)
        requires
            old(self)@.depth < usize::MAX,
        ensures
            old(self)@.leads_to(final(self)@),
            final(self)@ == old(self)@.entered(),
    {
        self.depth = self.depth + 1;
    }

    /// Ends an update. For an inner update this only counts down. At the end
    /// of the outermost update it hands out the oldest waiting effect: the
    /// caller dispatches it and calls again, until nothing is handed out.
    /// Then the queue is empty, the runtime is idle, and every effect ever
    /// queued has been handed out once, in the order in which it was queued.
    pub fn finish_update(&mut self) -> (effect: Option<Effect<V, C>>)
        ensures
            effect == old(self)@.next_effect(),
            final(self)@ == old(self)@.finished(),
            old(self)@.wf() ==> final(self)@.wf() && old(self)@.leads_to(final(self)@),
            effect is None && old(self)@.depth <= 1 ==> final(self)@.is_idle()
                && final(self)@.effects.pending.len() == 0,
            old(self)@.wf() && final(self)@.is_idle() ==> final(self)@.effects.dispatched
                == final(self)@.effects.enqueued,
    {
        proof {
            if self@.wf() {
                self@.effects.lemma_popped_wf();
                if self@.effects.pending.len() == 0 {
                    self@.effects.lemma_drained();
                }
            }
        }
        if self.depth > 1 {
            self.depth = self.depth - 1;
            None
        } else {
            let effect = self.effects.pop();
            if effect.is_some() {
                self.depth = 1;
            } else {
                self.depth = 0;
            }
            effect
        }
    }

    /// Whether another entity identifier can be issued.
    pub fn can_reserve(&self) -> (yes: bool)
        ensures
            yes == (self@.entities.next_id < u64::MAX),
    {
        self.entities.can_reserve()
    }

    /// Issues the identifier of a new entity, which is then built and given
    /// to `insert`.
    pub fn reserve(&mut self, type_tag: TypeTag) -> (slot: Slot)
        requires
            old(self)@.entities.next_id < u64::MAX,
        ensures
            final(self)@ == (AppState {
                entities: old(self)@.entities.reserved(type_tag),
                ..old(self)@
            }),
            old(self)@.wf() ==> final(self)@.wf() && old(self)@.leads_to(final(self)@),
            slot.id() == EntityId(old(self)@.entities.next_id),
            slot.type_tag() == type_tag,
    {
        self.entities.reserve(type_tag)
    }

    /// Stores the value of a new entity and hands out its first strong handle.
    pub fn insert(&mut self, slot: Slot, entity: V) -> (r: Result<Handle, Violation>)
        ensures
            old(self)@.wf() ==> final(self)@.wf() && old(self)@.leads_to(final(self)@),
            match r {
                Ok(handle) => {
                    &&& old(self)@.entities.insert_refusal(slot.id(), slot.type_tag()) is None
                    &&& final(self)@ == (AppState {
                        entities: old(self)@.entities.stored(slot.id(), entity),
                        ..old(self)@
                    })
                    &&& handle.id() == slot.id()
                    &&& handle.type_tag() == slot.type_tag()
                },
                Err(e) => {
                    &&& old(self)@.entities.insert_refusal(slot.id(), slot.type_tag()) == Some(e)
                    &&& final(self)@ == old(self)@
                },
            },
    {
        self.entities.insert(slot, entity)
    }

    /// Takes the value of an entity out of the store for an update. While it
    /// is out, every further attempt on the same entity is refused with
    /// `Absent` and changes nothing.
    pub fn lease(&mut self, handle: &Handle) -> (r: Result<Lease<V>, Violation>)
        ensures
            old(self)@.wf() ==> final(self)@.wf() && old(self)@.leads_to(final(self)@),
            match r {
                Ok(lease) => {
                    &&& old(self)@.entities.lease_refusal(handle.id(), handle.type_tag()) is None
                    &&& final(self)@ == (AppState {
                        entities: old(self)@.entities.leased(handle.id()),
                        ..old(self)@
                    })
                    &&& lease.value() == old(self)@.entities.value(handle.id())
                    &&& lease.id() == handle.id()
                    &&& lease.type_tag() == handle.type_tag()
                },
                Err(e) => {
                    &&& old(self)@.entities.lease_refusal(handle.id(), handle.type_tag()) == Some(
                        e,
                    )
                    &&& final(self)@ == old(self)@
                },
            },
            old(self)@.entities.is_leased(handle.id()) ==> r is Err && final(self)@ == old(
                self,
            )@,
    {
        self.entities.lease(handle)
    }

    /// Puts the value of an entity back after an update.
    pub fn end_lease(&mut self, lease: Lease<V>) -> (r: Result<(), Violation>)
        ensures
            old(self)@.wf() ==> final(self)@.wf() && old(self)@.leads_to(final(self)@),
            match r {
                Ok(_) => {
                    &&& old(self)@.entities.restore_refusal(lease.id(), lease.type_tag()) is None
                    &&& final(self)@ == (AppState {
                        entities: old(self)@.entities.stored(lease.id(), lease.value()),
                        ..old(self)@
                    })
                },
                Err(e) => {
                    &&& old(self)@.entities.restore_refusal(lease.id(), lease.type_tag()) == Some(
                        e,
                    )
                    &&& final(self)@ == old(self)@
                },
            },
    {
        self.entities.end_lease(lease)
    }

    /// Resolves a weak handle: a strong handle when the entity is live,
    /// nothing when it is released.
    pub fn upgrade(&mut self, weak: &WeakHandle) -> (r: Option<Handle>)
        requires
            old(self)@.entities.strong_count(weak.id) < usize::MAX,
        ensures
            old(self)@.wf() ==> final(self)@.wf() && old(self)@.leads_to(final(self)@),
            r is Some <==> old(self)@.entities.is_live(weak.id),
            r matches Some(handle) ==> handle.id() == weak.id && handle.type_tag()
                == weak.type_tag,
            final(self)@ == if old(self)@.entities.is_live(weak.id) {
                AppState { entities: old(self)@.entities.shared(weak.id), ..old(self)@ }
            } else {
                old(self)@
            },
    {
        self.entities.upgrade(weak)
    }

    /// Gives up a strong handle. With the last handle of an entity the slot
    /// is removed at once and the release is queued, to be delivered at the
    /// next flush.
    pub fn release(&mut self, handle: Handle) -> (r: Result<(), Violation>)
        ensures
            old(self)@.wf() ==> final(self)@.wf() && old(self)@.leads_to(final(self)@),
            match r {
                Ok(_) => {
                    &&& old(self)@.entities.release_refusal(handle.id(), handle.type_tag()) is None
                    &&& final(self)@ == old(self)@.released(handle.id())
                },
                Err(e) => {
                    &&& old(self)@.entities.release_refusal(handle.id(), handle.type_tag())
                        == Some(e)
                    &&& final(self)@ == old(self)@
                },
            },
    {
        proof {
            if self@.wf() {
                self@.effects.lemma_pushed_wf(
                    Effect::Release {
                        entity_id: handle.id(),
                        entity_type: self@.entities.slots[handle.id().0].type_tag,
                        entity: self@.entities.value(handle.id()),
                    },
                );
            }
        }
        let entity_id = handle.entity_id();
        let entity_type = handle.entity_type();
        match self.entities.release(handle) {
            Err(e) => Err(e),
            Ok(None) => Ok(()),
            Ok(Some(entity)) => {
                self.effects.push(Effect::Release { entity_id, entity_type, entity });
                Ok(())
            },
        }
    }

    /// Queues the notification of an entity's observers.
    pub fn notify(&mut self, emitter: EntityId)
        ensures
            final(self)@ == old(self)@.with_effect(Effect::Notify { emitter }),
            old(self)@.wf() ==> final(self)@.wf() && old(self)@.leads_to(final(self)@),
    {
        self.effects.push(Effect::Notify { emitter });
    }

    /// Queues an event of an entity for its subscribers.
    pub fn emit(&mut self, emitter: EntityId, event_type: TypeTag, event: V)
        ensures
            final(self)@ == old(self)@.with_effect(Effect::Emit { emitter, event_type, event }),
            old(self)@.wf() ==> final(self)@.wf() && old(self)@.leads_to(final(self)@),
    {
        self.effects.push(Effect::Emit { emitter, event_type, event });
    }

    /// Queues a callback to run with the outer context.
    pub fn defer(&mut self, callback: C)
        ensures
            final(self)@ == old(self)@.with_effect(Effect::Defer { callback }),
            old(self)@.wf() ==> final(self)@.wf() && old(self)@.leads_to(final(self)@),
    {
        self.effects.push(Effect::Defer { callback });
    }

    /// Marks what depends on the runtime as in need of a refresh.
    pub fn refresh(&mut self)
        ensures
            old(self)@.leads_to(final(self)@),
            final(self)@ == (AppState { dirty: true, ..old(self)@ }),
    {
        self.dirty = true;
    }

    /// Takes up a refresh that was asked for.
    pub fn take_refresh(&mut self) -> (dirty: bool)
        ensures
            old(self)@.leads_to(final(self)@),
            dirty == old(self)@.dirty,
            final(self)@ == (AppState { dirty: false, ..old(self)@ }),
    {
        let dirty = self.dirty;
        self.dirty = false;
        dirty
    }

    /// Whether another callback can be registered under a relationship.
    pub fn can_register(&self, relation: Relation) -> (yes: bool)
        ensures
            yes == (self@.registry(relation).next_id < u64::MAX),
    {
        match relation {
            Relation::Observe => self.observers.can_insert(),
            Relation::Subscribe => self.event_handlers.can_insert(),
            Relation::Release => self.release_handlers.can_insert(),
        }
    }

    /// Registers a callback under an entity, behind all that are registered
    /// there, and returns the token of the registration.
    pub fn register(&mut self, relation: Relation, emitter: EntityId, handler: Handler<C>) -> (token:
        Subscription)
        requires
            old(self)@.registry(relation).next_id < u64::MAX,
        ensures
            final(self)@ == old(self)@.with_registry(
                relation,
                old(self)@.registry(relation).inserted(emitter, handler),
            ),
            old(self)@.wf() ==> final(self)@.wf() && old(self)@.leads_to(final(self)@),
            token.relation() == relation,
            token.id() == old(self)@.registry(relation).next_id,
            final(self)@.registry(relation).ids_of(emitter) == old(self)@.registry(
                relation,
            ).ids_of(emitter).push(token.id()),
    {
        proof {
            self@.registry(relation).lemma_inserted_ids(emitter, handler, emitter);
        }
        let id = match relation {
            Relation::Observe => self.observers.insert(emitter, handler),
            Relation::Subscribe => self.event_handlers.insert(emitter, handler),
            Relation::Release => self.release_handlers.insert(emitter, handler),
        };
        Subscription::new(relation, id)
    }

    /// Removes the callback registered under a number, if there is one.
    pub(crate) fn retire(&mut self, relation: Relation, id: u64)
        ensures
            final(self)@ == old(self)@.with_registry(
                relation,
                old(self)@.registry(relation).removed(id),
            ),
            old(self)@.wf() ==> final(self)@.wf() && old(self)@.leads_to(final(self)@),
            !final(self)@.registry(relation).contains(id),
    {
        match relation {
            Relation::Observe => self.observers.remove(id),
            Relation::Subscribe => self.event_handlers.remove(id),
            Relation::Release => self.release_handlers.remove(id),
        }
    }

    /// Removes a registered callback. From here on it is in no list of
    /// callbacks to deliver, and no delivery of it is prepared.
    pub fn unsubscribe(&mut self, token: Subscription)
        ensures
            final(self)@ == old(self)@.with_registry(
                token.relation(),
                old(self)@.registry(token.relation()).removed(token.id()),
            ),
            old(self)@.wf() ==> final(self)@.wf() && old(self)@.leads_to(final(self)@),
            !final(self)@.registry(token.relation()).contains(token.id()),
    {
        self.retire(token.kind(), token.number());
    }

    /// Takes back what went out of use away from the runtime, in the order
    /// given: gives up each handle and removes each callback. The first
    /// handle that the store refuses ends it; what comes after is not taken
    /// back.
    pub fn give_back_all(&mut self, dropped: Vec<Dropped>) -> (r: Result<(), Violation>)
        ensures
            final(self)@ == old(self)@.all_taken_back(dropped@).0,
            match old(self)@.all_taken_back(dropped@).1 {
                Ok(_) => r is Ok,
                Err(e) => r == Err::<(), Violation>(e),
            },
            old(self)@.wf() ==> final(self)@.wf() && old(self)@.leads_to(final(self)@),
    {
        let mut waiting = dropped;
        proof {
            self@.lemma_leads_to_is_an_order(self@, self@);
        }
        while waiting.len() > 0
            invariant
                old(self)@.all_taken_back(dropped@) == self@.all_taken_back(waiting@),
                old(self)@.wf() ==> self@.wf() && old(self)@.leads_to(self@),
            decreases waiting.len(),
        {
            let ghost before = self@;
            let ghost rest = waiting@;
            let next = waiting.remove(0);
            assert(waiting@ =~= rest.skip(1));
            match next {
                Dropped::Handle(handle) => match self.release(handle) {
                    Err(e) => {
                        return Err(e);
                    },
                    Ok(_) => {},
                },
                Dropped::Subscription(token) => self.unsubscribe(token),
            }
            proof {
                if old(self)@.wf() {
                    old(self)@.lemma_leads_to_is_an_order(before, self@);
                }
            }
        }
        Ok(())
    }

    /// The numbers of the callbacks to deliver for an entity, in the order of
    /// their registration, as registered at this moment.
    pub fn snapshot(&self, relation: Relation, emitter: EntityId) -> (ids: Vec<u64>)
        ensures
            ids@ == self@.registry(relation).ids_of(emitter),
    {
        match relation {
            Relation::Observe => self.observers.snapshot(emitter),
            Relation::Subscribe => self.event_handlers.snapshot(emitter),
            Relation::Release => self.release_handlers.snapshot(emitter),
        }
    }

    /// Ends the delivery of an entity's release: everything filed under the
    /// entity leaves every registry.
    pub fn finish_release(&mut self, entity_id: EntityId)
        ensures
            final(self)@ == old(self)@.forgotten(entity_id),
            old(self)@.wf() ==> final(self)@.wf() && old(self)@.leads_to(final(self)@),
            forall|relation: Relation| #[trigger]
                final(self)@.registry(relation).ids_of(entity_id) == Seq::<u64>::empty(),
    {
        self.observers.remove_emitter(entity_id);
        self.event_handlers.remove_emitter(entity_id);
        self.release_handlers.remove_emitter(entity_id);
    }

    /// Sets the global of a type, returning the one it replaces.
    pub fn set_global(&mut self, type_tag: TypeTag, global: V) -> (r: Result<Option<V>, Violation>)
        ensures
            old(self)@.leads_to(final(self)@),
            match r {
                Ok(previous) => {
                    &&& old(self)@.globals.set_refusal(type_tag) is None
                    &&& final(self)@ == (AppState {
                        globals: old(self)@.globals.stored(type_tag, global),
                        ..old(self)@
                    })
                    &&& previous == old(self)@.globals.replaced(type_tag)
                },
                Err(e) => {
                    &&& old(self)@.globals.set_refusal(type_tag) == Some(e)
                    &&& final(self)@ == old(self)@
                },
            },
    {
        self.globals.set(type_tag, global)
    }

    /// Takes the global of a type out of the table, to read or update it.
    pub fn lease_global(&mut self, type_tag: TypeTag) -> (r: Result<GlobalLease<V>, Violation>)
        ensures
            old(self)@.leads_to(final(self)@),
            match r {
                Ok(lease) => {
                    &&& old(self)@.globals.lease_refusal(type_tag) is None
                    &&& final(self)@ == (AppState {
                        globals: old(self)@.globals.leased(type_tag),
                        ..old(self)@
                    })
                    &&& lease.value() == old(self)@.globals.value(type_tag)
                    &&& lease.type_tag() == type_tag
                },
                Err(e) => {
                    &&& old(self)@.globals.lease_refusal(type_tag) == Some(e)
                    &&& final(self)@ == old(self)@
                },
            },
    {
        self.globals.lease(type_tag)
    }

    /// Puts a global back into the table.
    pub fn end_global_lease(&mut self, lease: GlobalLease<V>) -> (r: Result<(), Violation>)
        ensures
            old(self)@.leads_to(final(self)@),
            match r {
                Ok(_) => {
                    &&& old(self)@.globals.restore_refusal(lease.type_tag()) is None
                    &&& final(self)@ == (AppState {
                        globals: old(self)@.globals.stored(lease.type_tag(), lease.value()),
                        ..old(self)@
                    })
                },
                Err(e) => {
                    &&& old(self)@.globals.restore_refusal(lease.type_tag()) == Some(e)
                    &&& final(self)@ == old(self)@
                },
            },
    {
        self.globals.end_lease(lease)
    }
}

impl<V, C> AppContext<V, C> {
    /// The windows, to look at.
    pub fn windows(&self) -> (windows: &WindowMap<V, C>)
        ensures
            windows@ == self@.windows,
    {
        &self.windows
    }

    /// Opens a window with its first state.
    pub fn open_window(&mut self, state: V) -> (id: WindowId)
        requires
            old(self)@.windows.next_id < u64::MAX,
        ensures
            old(self)@.leads_to(final(self)@),
            id == WindowId(old(self)@.windows.next_id),
            final(self)@ == (AppState { windows: old(self)@.windows.opened(state), ..old(self)@ }),
    {
        self.windows.open(state)
    }

    /// Closes a window and returns its state, or nothing when the state is
    /// out of the table.
    pub fn close_window(&mut self, id: WindowId) -> (r: Result<Option<V>, BridgeError>)
        ensures
            old(self)@.leads_to(final(self)@),
            match r {
                Ok(state) => {
                    &&& old(self)@.windows.is_open(id)
                    &&& state == old(self)@.windows.slots[id.0].state
                    &&& final(self)@ == (AppState {
                        windows: old(self)@.windows.closed(id),
                        ..old(self)@
                    })
                },
                Err(e) => {
                    &&& !old(self)@.windows.is_open(id)
                    &&& e == BridgeError::WindowNotFound
                    &&& final(self)@ == old(self)@
                },
            },
    {
        self.windows.close(id)
    }

    /// Takes the state of a window out of the table, to read or update it.
    /// Fails with `WindowNotFound` when the window is not open.
    pub fn lease_window(&mut self, id: WindowId) -> (r: Result<WindowLease<V>, BridgeError>)
        ensures
            old(self)@.leads_to(final(self)@),
            match r {
                Ok(lease) => {
                    &&& old(self)@.windows.lease_refusal(id) is None
                    &&& final(self)@ == (AppState {
                        windows: old(self)@.windows.with_state(id, None),
                        ..old(self)@
                    })
                    &&& lease.value() == old(self)@.windows.value(id)
                    &&& lease.id() == id
                },
                Err(e) => {
                    &&& old(self)@.windows.lease_refusal(id) == Some(e)
                    &&& final(self)@ == old(self)@
                },
            },
    {
        self.windows.lease(id)
    }

    /// Puts the state of a window back. Fails with `WindowNotFound` when the
    /// window was closed in the meantime.
    pub fn end_window_lease(&mut self, lease: WindowLease<V>) -> (r: Result<(), BridgeError>)
        ensures
            old(self)@.leads_to(final(self)@),
            match r {
                Ok(_) => {
                    &&& old(self)@.windows.restore_refusal(lease.id()) is None
                    &&& final(self)@ == (AppState {
                        windows: old(self)@.windows.with_state(lease.id(), Some(lease.value())),
                        ..old(self)@
                    })
                },
                Err(e) => {
                    &&& old(self)@.windows.restore_refusal(lease.id()) == Some(e)
                    &&& final(self)@ == old(self)@
                },
            },
    {
        self.windows.end_lease(lease)
    }

    /// Lines up a callback for the next frame of a window. Returns whether
    /// it is the first to wait.
    pub fn on_next_frame(&mut self, id: WindowId, callback: C) -> (r: Result<bool, BridgeError>)
        ensures
            old(self)@.leads_to(final(self)@),
            match r {
                Ok(first) => {
                    &&& old(self)@.windows.is_open(id)
                    &&& first == (old(self)@.windows.waiting(id).len() == 0)
                    &&& final(self)@ == (AppState {
                        windows: old(self)@.windows.with_next_frame(
                            id,
                            old(self)@.windows.waiting(id).push(callback),
                        ),
                        ..old(self)@
                    })
                },
                Err(e) => {
                    &&& !old(self)@.windows.is_open(id)
                    &&& e == BridgeError::WindowNotFound
                    &&& final(self)@ == old(self)@
                },
            },
    {
        self.windows.on_next_frame(id, callback)
    }

    /// Takes the callbacks that wait for the next frame of a window, oldest
    /// first.
    pub fn take_frame_callbacks(&mut self, id: WindowId) -> (callbacks: Vec<C>)
        ensures
            old(self)@.leads_to(final(self)@),
            callbacks@ == old(self)@.windows.waiting(id),
            final(self)@ == if old(self)@.windows.is_open(id) {
                AppState {
                    windows: old(self)@.windows.with_next_frame(id, Seq::empty()),
                    ..old(self)@
                }
            } else {
                old(self)@
            },
    {
        self.windows.take_frame_callbacks(id)
    }
}

} // verus!
